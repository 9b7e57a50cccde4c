//! `wardenctl policy scaffold`: a fresh rule file with its header filled in.

use crate::report::{
    complain, complaint, show_text, shown, ExitCode, Printed, PrintedView, Report, ReportView,
};
use crate::text::{
    chars_of, count_lines, debug_quoted, debug_text, decimal, filter_keeps_all, holds,
    holds_between, holds_end, holds_on, holds_through, is_word, join, joined, joined_grows,
    kept_was_there, line_breaks, line_count, pieces, pieces_append, pieces_of_joined, pieces_of_one,
    pieces_shape, same, show, split, texts, trim, trimmed, trimmed_shape,
};
use vstd::prelude::*;
use vstd::string::*;

verus! {

/// The arguments of `policy scaffold`.
#[derive(Debug)]
pub struct ScaffoldArgs {
    /// The template's name, which is its file name without `.rego`.
    pub name: String,
    /// The domain that the catalog files it under.
    pub domain: String,
    /// The verdict that the rule gives: `deny`, `review` or `mixed`.
    pub tier: String,
    /// How grave a violation is.
    pub severity: String,
    /// Compliance frameworks, between commas.
    pub frameworks: String,
    /// Keywords, between commas.
    pub tags: String,
    /// The tools that the rule gates, between commas; at least one.
    pub tool_surface: String,
    /// One line of summary.
    pub summary: String,
    /// Where to write; `policies/templates/<name>.rego` by default.
    pub output: Option<std::path::PathBuf>,
    /// Overwrite what stands there.
    pub force: bool,
    /// Print instead of writing a file.
    pub stdout: bool,
}

/// The items of a list that is written between commas: without white space
/// around them, and without the empty ones.
pub open spec fn csv_items(s: Seq<char>) -> Seq<Seq<char>> {
    pieces(s, ',').map_values(|p: Seq<char>| trimmed(p)).filter(|p: Seq<char>| p.len() > 0)
}

/// Whether `c` may stand in a template's name.
pub open spec fn is_slug_char(c: char) -> bool {
    'a' <= c <= 'z' || '0' <= c <= '9' || c == '_'
}

/// Whether `s` can name a template: small letters, digits and underscores, at
/// least one of them.
pub open spec fn is_slug(s: Seq<char>) -> bool {
    s.len() > 0 && forall|i: int| 0 <= i < s.len() ==> #[trigger] is_slug_char(s[i])
}

/// The summary line: the given one, or one made from the domain.
pub open spec fn summary_text(args: ScaffoldArgs) -> Seq<char> {
    if args.summary@.len() == 0 {
        "Starter policy for "@ + args.domain@ + " domain."@
    } else {
        args.summary@
    }
}

/// The lines of the tool set, one for each tool.
pub open spec fn tool_lines(tools: Seq<Seq<char>>) -> Seq<char>
    decreases tools.len(),
{
    if tools.len() == 0 {
        Seq::empty()
    } else {
        tool_lines(tools.drop_last()) + "\t\""@ + tools.last() + "\",\n"@
    }
}

/// One line of the header.
pub open spec fn field(key: Seq<char>, value: Seq<char>) -> Seq<char> {
    key + value + "\n"@
}

/// The file's header: a column of keys and what each stands for.
pub open spec fn header_text(args: ScaffoldArgs, tools: Seq<Seq<char>>) -> Seq<char> {
    field("# Template:     "@, args.name@) + field("# Domain:       "@, args.domain@) + field(
        "# Severity:     "@,
        args.severity@,
    ) + field("# Frameworks:   "@, joined(csv_items(args.frameworks@), ", "@)) + field(
        "# Tags:         "@,
        joined(csv_items(args.tags@), ", "@),
    ) + field("# Tier:         "@, args.tier@) + field(
        "# Tool surface: "@,
        joined(tools, ", "@),
    ) + field("# Summary:      "@, summary_text(args))
        + "# Purpose:      TODO — describe the rule's intent in one or two lines.\n# Inputs:       input.tool_type\n# Edit:         The named tool set below is the load-bearing knob — tighten\n#               the list to match the tools your agent stack exposes.\n\npackage warden.authz\n\nimport rego.v1\n\n"@
}

/// The set of gated tools.
pub open spec fn tool_set_text(tools: Seq<Seq<char>>) -> Seq<char> {
    "gated_tools := {\n"@ + tool_lines(tools) + "}\n\n"@
}

/// The rule that denies.
pub open spec fn deny_text(name: Seq<char>) -> Seq<char> {
    "deny contains msg if {\n\tsome t in gated_tools\n\tinput.tool_type == t\n\tmsg := sprintf(\n\t\t\"Violation: \\\"%s\\\" is denied by "@
        + name + ".\",\n\t\t[input.tool_type],\n\t)\n}\n\n"@
}

/// The rule that asks for review.
pub open spec fn review_text(name: Seq<char>) -> Seq<char> {
    "review contains msg if {\n\tsome t in gated_tools\n\tinput.tool_type == t\n\tmsg := sprintf(\n\t\t\"Review: \\\"%s\\\" requires operator approval per "@
        + name + ".\",\n\t\t[input.tool_type],\n\t)\n}\n"@
}

/// Whether a template of this tier holds the rule that denies.
pub open spec fn denies(tier: Seq<char>) -> bool {
    tier == "deny"@ || tier == "mixed"@
}

/// Whether a template of this tier holds the rule that asks for review.
pub open spec fn reviews(tier: Seq<char>) -> bool {
    tier == "review"@ || tier == "mixed"@
}

/// The whole file.
pub open spec fn template_text(args: ScaffoldArgs, tools: Seq<Seq<char>>) -> Seq<char> {
    header_text(args, tools) + tool_set_text(tools) + (if denies(args.tier@) {
        deny_text(args.name@)
    } else {
        Seq::empty()
    }) + (if reviews(args.tier@) {
        review_text(args.name@)
    } else {
        Seq::empty()
    })
}

/// The items of a list that is written between commas.
pub fn split_csv(s: &str) -> (r: Vec<String>)
    ensures
        texts(r@) == csv_items(s@),
{
    let parts = split(s, ',');
    let mut out: Vec<String> = Vec::new();
    let mut i: usize = 0;
    let ghost all = texts(parts@).map_values(|p: Seq<char>| trimmed(p));
    let ghost keep = |p: Seq<char>| p.len() > 0;
    proof {
        reveal(Seq::filter);
        assert(texts(out@) =~= all.take(0).filter(keep));
    }
    while i < parts.len()
        invariant
            i <= parts.len(),
            all == texts(parts@).map_values(|p: Seq<char>| trimmed(p)),
            keep == (|p: Seq<char>| p.len() > 0),
            texts(out@) == all.take(i as int).filter(keep),
        decreases parts.len() - i,
    {
        let item = trim(parts[i].as_str());
        assert(item@ == all[i as int]);
        proof {
            reveal(Seq::filter);
            assert(all.take(i + 1).drop_last() =~= all.take(i as int));
            assert(all.take(i + 1).last() == item@);
        }
        if !item.is_empty() {
            let ghost before = texts(out@);
            out.push(item.to_owned());
            assert(texts(out@) =~= before.push(item@));
        }
        i += 1;
    }
    assert(all.take(i as int) =~= all);
    out
}

/// Whether `s` can name a template.
pub fn is_safe_slug(s: &str) -> (r: bool)
    ensures
        r == is_slug(s@),
        r ==> s@.len() > 0,
        r ==> forall|i: int|
            0 <= i < s@.len() ==> 'a' <= #[trigger] s@[i] <= 'z' || '0' <= s@[i] <= '9' || s@[i]
                == '_',
{
    let chars = chars_of(s);
    let mut i: usize = 0;
    while i < chars.len()
        invariant
            chars@ == s@,
            i <= chars.len(),
            forall|j: int| 0 <= j < i ==> #[trigger] is_slug_char(s@[j]),
        decreases chars.len() - i,
    {
        let c = chars[i];
        if !(('a' <= c && c <= 'z') || ('0' <= c && c <= '9') || c == '_') {
            assert(!is_slug_char(s@[i as int]));
            return false;
        }
        i += 1;
    }
    proof {
        slugs_are_these(s@);
    }
    chars.len() > 0
}

/// One line of the header.
fn header_line(key: &str, value: &str) -> (r: String)
    ensures
        r@ == field(key@, value@),
{
    let mut out = key.to_owned();
    out.append(value);
    out.append("\n");
    out
}

/// The header of the file.
fn render_header(args: &ScaffoldArgs, tools: &Vec<String>) -> (r: String)
    ensures
        r@ == header_text(*args, texts(tools@)),
{
    let frameworks = join(&split_csv(args.frameworks.as_str()), ", ");
    let tags = join(&split_csv(args.tags.as_str()), ", ");
    let surface = join(tools, ", ");
    let summary = if args.summary.as_str().is_empty() {
        let mut made = "Starter policy for ".to_owned();
        made.append(args.domain.as_str());
        made.append(" domain.");
        made
    } else {
        args.summary.clone()
    };
    let mut out = header_line("# Template:     ", args.name.as_str());
    out.append(header_line("# Domain:       ", args.domain.as_str()).as_str());
    out.append(header_line("# Severity:     ", args.severity.as_str()).as_str());
    out.append(header_line("# Frameworks:   ", frameworks.as_str()).as_str());
    out.append(header_line("# Tags:         ", tags.as_str()).as_str());
    out.append(header_line("# Tier:         ", args.tier.as_str()).as_str());
    out.append(header_line("# Tool surface: ", surface.as_str()).as_str());
    out.append(header_line("# Summary:      ", summary.as_str()).as_str());
    out.append("# Purpose:      TODO — describe the rule's intent in one or two lines.\n# Inputs:       input.tool_type\n# Edit:         The named tool set below is the load-bearing knob — tighten\n#               the list to match the tools your agent stack exposes.\n\npackage warden.authz\n\nimport rego.v1\n\n");
    out
}

/// The set of gated tools.
fn render_tool_set(tools: &Vec<String>) -> (r: String)
    ensures
        r@ == tool_set_text(texts(tools@)),
{
    let mut out = "gated_tools := {\n".to_owned();
    let mut i: usize = 0;
    assert(out@ =~= "gated_tools := {\n"@ + tool_lines(texts(tools@).take(0)));
    while i < tools.len()
        invariant
            i <= tools.len(),
            out@ == "gated_tools := {\n"@ + tool_lines(texts(tools@).take(i as int)),
        decreases tools.len() - i,
    {
        out.append("\t\"");
        out.append(tools[i].as_str());
        out.append("\",\n");
        assert(texts(tools@).take(i + 1).drop_last() =~= texts(tools@).take(i as int));
        assert(texts(tools@).take(i + 1).last() == tools@[i as int]@);
        i += 1;
        assert(out@ =~= "gated_tools := {\n"@ + tool_lines(texts(tools@).take(i as int)));
    }
    assert(texts(tools@).take(i as int) =~= texts(tools@));
    out.append("}\n\n");
    out
}

/// The whole file.
pub fn render_template(args: &ScaffoldArgs, tools: &Vec<String>) -> (r: String)
    ensures
        r@ == template_text(*args, texts(tools@)),
{
    let mut out = render_header(args, tools);
    let set = render_tool_set(tools);
    out.append(set.as_str());
    let ghost top = out@;
    let tier = args.tier.as_str();
    let deny = same(tier, "deny");
    let review = same(tier, "review");
    let mixed = same(tier, "mixed");
    if deny || mixed {
        out.append("deny contains msg if {\n\tsome t in gated_tools\n\tinput.tool_type == t\n\tmsg := sprintf(\n\t\t\"Violation: \\\"%s\\\" is denied by ");
        out.append(args.name.as_str());
        out.append(".\",\n\t\t[input.tool_type],\n\t)\n}\n\n");
    }
    assert(out@ =~= top + (if denies(args.tier@) {
        deny_text(args.name@)
    } else {
        Seq::empty()
    }));
    if review || mixed {
        out.append("review contains msg if {\n\tsome t in gated_tools\n\tinput.tool_type == t\n\tmsg := sprintf(\n\t\t\"Review: \\\"%s\\\" requires operator approval per ");
        out.append(args.name.as_str());
        out.append(".\",\n\t\t[input.tool_type],\n\t)\n}\n");
    }
    assert(out@ =~= template_text(*args, texts(tools@)));
    out
}

// ── The command ──────────────────────────────────────────────────────────

/// What to do with the given arguments.
#[derive(Debug)]
pub enum ScaffoldStep {
    /// End here.
    Stop(Report),
    /// Write this to the output path.
    Write(String),
}

/// What a [`ScaffoldStep`] holds.
pub enum ScaffoldStepView {
    Stop(ReportView),
    Write(Seq<char>),
}

impl View for ScaffoldStep {
    type V = ScaffoldStepView;

    open spec fn view(&self) -> ScaffoldStepView {
        match self {
            ScaffoldStep::Stop(report) => ScaffoldStepView::Stop(report@),
            ScaffoldStep::Write(body) => ScaffoldStepView::Write(body@),
        }
    }
}

/// What is reported of a name, given as `{:?}` writes it, that is no slug.
pub open spec fn bad_name_report(quoted: Seq<char>) -> ReportView {
    complaint(
        "--name must be lower-case alphanumeric + underscore (got "@ + quoted + ")."@,
        ExitCode::Validation,
    )
}

/// What `policy scaffold` does with its arguments: it wants a tool, then a safe
/// name, and prints or writes the file.
pub open spec fn scaffold_step(args: ScaffoldArgs) -> ScaffoldStepView {
    let tools = csv_items(args.tool_surface@);
    if tools.len() == 0 {
        ScaffoldStepView::Stop(
            complaint(
                "--tool-surface must list at least one MCP tool name."@,
                ExitCode::Validation,
            ),
        )
    } else if !is_slug(args.name@) {
        ScaffoldStepView::Stop(bad_name_report(debug_text(args.name@)))
    } else if args.stdout {
        ScaffoldStepView::Stop(shown(template_text(args, tools)))
    } else {
        ScaffoldStepView::Write(template_text(args, tools))
    }
}

/// What is reported of a name that is no slug.
pub fn bad_name(quoted: &str) -> (r: Report)
    ensures
        r@ == bad_name_report(quoted@),
{
    let mut text = "--name must be lower-case alphanumeric + underscore (got ".to_owned();
    text.append(quoted);
    text.append(").");
    complain(text.as_str(), ExitCode::Validation)
}

/// What `policy scaffold` does with its arguments.
pub fn scaffold(args: &ScaffoldArgs) -> (r: ScaffoldStep)
    ensures
        r@ == scaffold_step(*args),
        r is Write <==> csv_items(args.tool_surface@).len() > 0 && is_slug(args.name@)
            && !args.stdout,
        r matches ScaffoldStep::Write(body) ==> body@ == template_text(
            *args,
            csv_items(args.tool_surface@),
        ),
        r matches ScaffoldStep::Stop(report) ==> {
            &&& report.exit == ExitCode::Success <==> csv_items(args.tool_surface@).len() > 0
                && is_slug(args.name@)
            &&& report.exit == ExitCode::Success || report.exit == ExitCode::Validation
            &&& report.exit == ExitCode::Success ==> report.stderr@.len() == 0 && report.stdout@
                == PrintedView::Text(template_text(*args, csv_items(args.tool_surface@)))
            &&& csv_items(args.tool_surface@).len() == 0 ==> report.stderr@ == "error: "@
                + "--tool-surface must list at least one MCP tool name."@ + "\n"@
            &&& csv_items(args.tool_surface@).len() > 0 && !is_slug(args.name@) ==> report.stderr@
                == "error: "@ + ("--name must be lower-case alphanumeric + underscore (got "@
                + debug_text(args.name@) + ")."@) + "\n"@
        },
{
    let tools = split_csv(args.tool_surface.as_str());
    if tools.len() == 0 {
        assert(texts(tools@).len() == 0);
        return ScaffoldStep::Stop(
            complain(
                "--tool-surface must list at least one MCP tool name.",
                ExitCode::Validation,
            ),
        );
    }
    assert(texts(tools@).len() > 0);
    if !is_safe_slug(args.name.as_str()) {
        let quoted = debug_quoted(args.name.as_str());
        return ScaffoldStep::Stop(bad_name(quoted.as_str()));
    }
    let body = render_template(args, &tools);
    if args.stdout {
        ScaffoldStep::Stop(show_text(body))
    } else {
        ScaffoldStep::Write(body)
    }
}

/// Where a template goes when no path is given.
pub open spec fn default_path_text(name: Seq<char>) -> Seq<char> {
    "policies/templates/"@ + name + ".rego"@
}

/// Where a template goes when no path is given.
pub fn default_path(name: &str) -> (r: String)
    ensures
        r@ == default_path_text(name@),
        r@ == "policies/templates/"@ + name@ + ".rego"@,
{
    let mut out = "policies/templates/".to_owned();
    out.append(name);
    out.append(".rego");
    out
}

/// Whether the file at `path` stands in the way: it exists, and nobody said to
/// overwrite it.
pub fn overwrite_refusal(path: &str, taken: bool, force: bool) -> (r: Option<Report>)
    ensures
        match r {
            Some(report) => taken && !force && report@ == complaint(
                path@
                    + " already exists. Pass --force to overwrite, or pick a different --name."@,
                ExitCode::Conflict,
            ),
            None => !taken || force,
        },
{
    if taken && !force {
        let mut text = path.to_owned();
        text.append(" already exists. Pass --force to overwrite, or pick a different --name.");
        Some(complain(text.as_str(), ExitCode::Conflict))
    } else {
        None
    }
}

/// How writing the file went.
#[derive(Debug)]
pub enum WriteOutcome {
    /// The folder at `parent` could not be made.
    FolderFailed { parent: String, message: String },
    /// The file could not be written.
    FileFailed { message: String },
    /// The file stands.
    Written,
}

/// What is reported of writing `body` to `path`.
pub open spec fn write_outcome_report(
    path: Seq<char>,
    body: Seq<char>,
    outcome: WriteOutcome,
) -> ReportView {
    match outcome {
        WriteOutcome::FolderFailed { parent, message } => complaint(
            "create "@ + parent@ + ": "@ + message@,
            ExitCode::Server,
        ),
        WriteOutcome::FileFailed { message } => complaint(
            "write "@ + path + ": "@ + message@,
            ExitCode::Server,
        ),
        WriteOutcome::Written => ReportView {
            stdout: PrintedView::Text(Seq::empty()),
            stderr: "wrote "@ + path + " ("@ + decimal(line_count(body) as nat) + " lines)\n"@,
            exit: ExitCode::Success,
        },
    }
}

/// What is reported of writing `body` to `path`.
pub fn write_report(path: &str, body: &str, outcome: &WriteOutcome) -> (r: Report)
    ensures
        r@ == write_outcome_report(path@, body@, *outcome),
        r.exit == ExitCode::Success <==> outcome is Written,
        outcome is Written ==> r.stderr@ == "wrote "@ + path@ + " ("@ + decimal(
            line_count(body@) as nat,
        ) + " lines)\n"@,
        outcome matches WriteOutcome::FolderFailed { parent, message } ==> r.exit
            == ExitCode::Server && r.stderr@ == "error: "@ + ("create "@ + parent@ + ": "@
            + message@) + "\n"@,
        outcome matches WriteOutcome::FileFailed { message } ==> r.exit == ExitCode::Server
            && r.stderr@ == "error: "@ + ("write "@ + path@ + ": "@ + message@) + "\n"@,
{
    match outcome {
        WriteOutcome::FolderFailed { parent, message } => {
            let mut text = "create ".to_owned();
            text.append(parent.as_str());
            text.append(": ");
            text.append(message.as_str());
            complain(text.as_str(), ExitCode::Server)
        },
        WriteOutcome::FileFailed { message } => {
            let mut text = "write ".to_owned();
            text.append(path);
            text.append(": ");
            text.append(message.as_str());
            complain(text.as_str(), ExitCode::Server)
        },
        WriteOutcome::Written => {
            let lines = count_lines(body);
            let mut stderr = "wrote ".to_owned();
            stderr.append(path);
            stderr.append(" (");
            stderr.append(show(lines as u64).as_str());
            stderr.append(" lines)\n");
            Report {
                stdout: Printed::Text(String::new()),
                stderr,
                exit: ExitCode::Success,
            }
        },
    }
}

// ── Laws ─────────────────────────────────────────────────────────────────

/// A slug holds no path separator and no dot, so the default path of a template
/// is a file right inside `policies/templates/`.
pub proof fn slug_stays_in_folder(name: Seq<char>)
    requires
        is_slug(name),
    ensures
        !name.contains('.'),
        default_path_text(name) == "policies/templates/"@ + (name + ".rego"@),
        !(name + ".rego"@).contains('/'),
        !(name + ".rego"@).contains('\\'),
{
    reveal_strlit(".rego");
    assert(default_path_text(name) =~= "policies/templates/"@ + (name + ".rego"@));
    assert forall|c: char| #[trigger] name.contains(c) implies is_slug_char(c) by {
        let i = choose|i: int| 0 <= i < name.len() && name[i] == c;
        assert(is_slug_char(name[i]));
    }
    assert forall|c: char| #[trigger]
        (name + ".rego"@).contains(c) implies name.contains(c) || ".rego"@.contains(c) by {
        let file = name + ".rego"@;
        let i = choose|i: int| 0 <= i < file.len() && file[i] == c;
        if i >= name.len() {
            assert(".rego"@[i - name.len()] == c);
        } else {
            assert(name[i] == c);
        }
    }
}

/// Every item of a list between commas is a word without a comma.
pub proof fn csv_items_are_words(s: Seq<char>)
    ensures
        forall|i: int| 0 <= i < csv_items(s).len() ==> is_item(#[trigger] csv_items(s)[i]),
{
    let all = pieces(s, ',').map_values(|p: Seq<char>| trimmed(p));
    let keep = |p: Seq<char>| p.len() > 0;
    kept_was_there(all, keep);
    pieces_shape(s, ',');
    assert forall|i: int| 0 <= i < csv_items(s).len() implies is_item(
        #[trigger] csv_items(s)[i],
    ) by {
        let item = csv_items(s)[i];
        assert(all.filter(keep)[i] == item);
        let k = choose|k: int| 0 <= k < all.len() && all[k] == item;
        trimmed_shape(pieces(s, ',')[k]);
    }
}

/// Whether `s` can be an item of a list between commas.
pub open spec fn is_item(s: Seq<char>) -> bool {
    is_word(s) && !s.contains(',')
}

/// A list that is written with a comma and a space between its items, as the
/// header writes it, reads back as the same list.
pub proof fn csv_reads_back(items: Seq<Seq<char>>)
    requires
        forall|i: int| 0 <= i < items.len() ==> is_item(#[trigger] items[i]),
    ensures
        csv_items(joined(items, ", "@)) == items,
{
    let written = joined(items, ", "@);
    let all = pieces(written, ',').map_values(|p: Seq<char>| trimmed(p));
    let keep = |p: Seq<char>| p.len() > 0;
    if items.len() == 0 {
        assert(written =~= Seq::empty());
        assert(trimmed(Seq::<char>::empty()) =~= Seq::empty());
        assert(all =~= seq![Seq::<char>::empty()]);
        reveal_with_fuel(Seq::<_>::filter, 2);
        assert(all.drop_last() =~= Seq::empty());
        assert(all.filter(keep) =~= Seq::empty());
        assert(items =~= Seq::empty());
    } else {
        reveal_strlit(", ");
        assert(seq![','] + seq![' '] =~= ", "@);
        pieces_of_joined(items, ',', seq![' ']);
        assert(all =~= items);
        assert forall|i: int| 0 <= i < items.len() implies keep(#[trigger] items[i]) by {
            assert(is_item(items[i]));
        }
        filter_keeps_all(items, keep);
    }
}

/// The header's lists read back: what a line between commas holds is what was
/// asked for.
pub proof fn header_lists_read_back(s: Seq<char>)
    ensures
        csv_items(joined(csv_items(s), ", "@)) == csv_items(s),
{
    csv_items_are_words(s);
    csv_reads_back(csv_items(s));
}

/// Every file carries its whole header, whatever its tier.
pub proof fn template_carries_header(args: ScaffoldArgs, tools: Seq<Seq<char>>)
    ensures
        holds(template_text(args, tools), field("# Template:     "@, args.name@)),
        holds(template_text(args, tools), field("# Domain:       "@, args.domain@)),
        holds(template_text(args, tools), field("# Severity:     "@, args.severity@)),
        holds(
            template_text(args, tools),
            field("# Frameworks:   "@, joined(csv_items(args.frameworks@), ", "@)),
        ),
        holds(
            template_text(args, tools),
            field("# Tags:         "@, joined(csv_items(args.tags@), ", "@)),
        ),
        holds(template_text(args, tools), field("# Tier:         "@, args.tier@)),
        holds(template_text(args, tools), field("# Tool surface: "@, joined(tools, ", "@))),
        holds(template_text(args, tools), field("# Summary:      "@, summary_text(args))),
        holds(template_text(args, tools), tool_set_text(tools)),
{
    broadcast use holds_on;

    let f1 = field("# Template:     "@, args.name@);
    let f2 = field("# Domain:       "@, args.domain@);
    let f3 = field("# Severity:     "@, args.severity@);
    let f4 = field("# Frameworks:   "@, joined(csv_items(args.frameworks@), ", "@));
    let f5 = field("# Tags:         "@, joined(csv_items(args.tags@), ", "@));
    let f6 = field("# Tier:         "@, args.tier@);
    let f7 = field("# Tool surface: "@, joined(tools, ", "@));
    let f8 = field("# Summary:      "@, summary_text(args));
    holds_end(Seq::empty(), f1);
    assert(Seq::<char>::empty() + f1 =~= f1);
    holds_end(f1, f2);
    holds_end(f1 + f2, f3);
    holds_end(f1 + f2 + f3, f4);
    holds_end(f1 + f2 + f3 + f4, f5);
    holds_end(f1 + f2 + f3 + f4 + f5, f6);
    holds_end(f1 + f2 + f3 + f4 + f5 + f6, f7);
    holds_end(f1 + f2 + f3 + f4 + f5 + f6 + f7, f8);
    holds_end(header_text(args, tools), tool_set_text(tools));
}

/// The tier decides which rules a file holds: `deny` the one that denies,
/// `review` the one that asks for review, `mixed` both, in that order; nothing
/// follows them.
pub proof fn tier_decides_rules(args: ScaffoldArgs, tools: Seq<Seq<char>>)
    ensures
        args.tier@ == "deny"@ ==> template_text(args, tools) == header_text(args, tools)
            + tool_set_text(tools) + deny_text(args.name@),
        args.tier@ == "review"@ ==> template_text(args, tools) == header_text(args, tools)
            + tool_set_text(tools) + review_text(args.name@),
        args.tier@ == "mixed"@ ==> template_text(args, tools) == header_text(args, tools)
            + tool_set_text(tools) + deny_text(args.name@) + review_text(args.name@),
{
    reveal_strlit("deny");
    reveal_strlit("review");
    reveal_strlit("mixed");
    assert("deny"@.len() == 4);
    assert("review"@.len() == 6);
    assert("mixed"@.len() == 5);
    let top = header_text(args, tools) + tool_set_text(tools);
    if args.tier@ == "deny"@ {
        assert(template_text(args, tools) =~= top + deny_text(args.name@));
    }
    if args.tier@ == "review"@ {
        assert(template_text(args, tools) =~= top + review_text(args.name@));
    }
}

/// A slug is made of small letters, digits and underscores, and anything made of
/// those is one.
pub proof fn slugs_are_these(s: Seq<char>)
    ensures
        is_slug(s) <==> s.len() > 0 && forall|i: int|
            0 <= i < s.len() ==> 97 <= #[trigger] s[i] as int <= 122 || 48 <= s[i] as int <= 57
                || s[i] as int == 95,
{
    if is_slug(s) {
        assert forall|i: int| 0 <= i < s.len() implies 97 <= #[trigger] s[i] as int <= 122 || 48
            <= s[i] as int <= 57 || s[i] as int == 95 by {
            assert(is_slug_char(s[i]));
        }
    }
}

/// One more item between commas is one more item of the list, without the white
/// space round it, unless nothing but white space stands there.
pub proof fn lists_grow_by_an_item(s: Seq<char>, item: Seq<char>)
    requires
        !item.contains(','),
    ensures
        csv_items(s.push(',') + item) == (if trimmed(item).len() > 0 {
            csv_items(s).push(trimmed(item))
        } else {
            csv_items(s)
        }),
        csv_items(item) == (if trimmed(item).len() > 0 {
            seq![trimmed(item)]
        } else {
            Seq::empty()
        }),
{
    let f = |p: Seq<char>| trimmed(p);
    let keep = |p: Seq<char>| p.len() > 0;
    reveal_with_fuel(Seq::<_>::filter, 2);
    pieces_append(s, ',', item);
    let before = pieces(s, ',').map_values(f);
    let after = before.push(trimmed(item));
    assert(pieces(s, ',').push(item).map_values(f) =~= after);
    assert(after.drop_last() =~= before);
    pieces_of_one(item, ',');
    let one = seq![trimmed(item)];
    assert(seq![item].map_values(f) =~= one);
    assert(one.drop_last() =~= Seq::empty());
    assert(Seq::<Seq<char>>::empty().push(trimmed(item)) =~= one);
}

/// The tools' lines, one after another.
proof fn tool_lines_are_joined(tools: Seq<Seq<char>>)
    ensures
        tool_lines(tools) == joined(
            tools.map_values(|t: Seq<char>| "\t\""@ + t + "\",\n"@),
            Seq::empty(),
        ),
    decreases tools.len(),
{
    let f = |t: Seq<char>| "\t\""@ + t + "\",\n"@;
    let lines = tools.map_values(f);
    if tools.len() == 0 {
        assert(lines =~= Seq::empty());
        joined_grows(lines, Seq::empty(), Seq::empty());
    } else {
        let front = tools.drop_last();
        tool_lines_are_joined(front);
        let before = front.map_values(f);
        assert(lines =~= before.push(f(tools.last())));
        joined_grows(before, f(tools.last()), Seq::empty());
        if front.len() == 0 {
            assert(before =~= Seq::empty());
            assert(lines =~= seq![f(tools.last())]);
        }
        assert(tool_lines(tools) =~= tool_lines(front) + f(tools.last()));
        assert(tool_lines(front) + Seq::<char>::empty() =~= tool_lines(front));
    }
}

/// The file gates every tool it was asked to gate: each has a line of its own in
/// the set.
pub proof fn every_tool_is_gated(args: ScaffoldArgs, tools: Seq<Seq<char>>, i: int)
    requires
        0 <= i < tools.len(),
    ensures
        holds(template_text(args, tools), "\t\""@ + tools[i] + "\",\n"@),
{
    let line = "\t\""@ + tools[i] + "\",\n"@;
    tool_lines_hold_each(tools, i);
    holds_between("gated_tools := {\n"@, tool_lines(tools), "}\n\n"@);
    template_carries_header(args, tools);
    holds_through(tool_set_text(tools), tool_lines(tools), line);
    holds_through(template_text(args, tools), tool_set_text(tools), line);
}

proof fn tool_lines_hold_each(tools: Seq<Seq<char>>, i: int)
    requires
        0 <= i < tools.len(),
    ensures
        holds(tool_lines(tools), "\t\""@ + tools[i] + "\",\n"@),
    decreases tools.len(),
{
    let line = "\t\""@ + tools[i] + "\",\n"@;
    let before = tool_lines(tools.drop_last());
    let last = "\t\""@ + tools.last() + "\",\n"@;
    assert(before + "\t\""@ + tools.last() + "\",\n"@ =~= before + last);
    if i == tools.len() - 1 {
        holds_end(before, line);
    } else {
        tool_lines_hold_each(tools.drop_last(), i);
        holds_on(before, last, line);
    }
}

/// The set holds those lines and nothing else: between its braces there is one
/// for each tool, in the order of the tools.
pub proof fn tool_set_is_the_tools(args: ScaffoldArgs, tools: Seq<Seq<char>>)
    ensures
        holds(
            template_text(args, tools),
            "gated_tools := {\n"@ + joined(
                tools.map_values(|t: Seq<char>| "\t\""@ + t + "\",\n"@),
                Seq::empty(),
            ) + "}\n\n"@,
        ),
        tool_set_text(tools) == "gated_tools := {\n"@ + joined(
            tools.map_values(|t: Seq<char>| "\t\""@ + t + "\",\n"@),
            Seq::empty(),
        ) + "}\n\n"@,
{
    tool_lines_are_joined(tools);
    template_carries_header(args, tools);
}

/// Between its braces the set has as many lines as there are tools, where no
/// tool breaks a line.
pub proof fn one_line_for_each_tool(tools: Seq<Seq<char>>)
    requires
        forall|i: int| 0 <= i < tools.len() ==> !(#[trigger] tools[i]).contains('\n'),
    ensures
        exists|lines: Seq<char>|
            #![trigger line_breaks(lines)]
            tool_set_text(tools) == "gated_tools := {\n"@ + lines + "}\n\n"@ && line_breaks(lines)
                == tools.len(),
{
    tool_lines_break(tools);
}

proof fn tool_lines_break(tools: Seq<Seq<char>>)
    requires
        forall|i: int| 0 <= i < tools.len() ==> !(#[trigger] tools[i]).contains('\n'),
    ensures
        line_breaks(tool_lines(tools)) == tools.len(),
    decreases tools.len(),
{
    let is_break = |c: char| c == '\n';
    reveal(Seq::filter);
    if tools.len() > 0 {
        let front = tools.drop_last();
        assert forall|i: int| 0 <= i < front.len() implies !(#[trigger] front[i]).contains(
            '\n',
        ) by {
            assert(!tools[i].contains('\n'));
        }
        tool_lines_break(front);
        let tool = tools.last();
        assert(!tools[tools.len() - 1].contains('\n'));
        reveal_strlit("\t\"");
        reveal_strlit("\",\n");
        let unbroken = "\t\""@ + tool + "\","@;
        reveal_strlit("\",");
        assert forall|i: int| 0 <= i < unbroken.len() implies #[trigger] unbroken[i] != '\n' by {
            if 2 <= i < 2 + tool.len() {
                assert(unbroken[i] == tool[i - 2]);
                assert(tool.contains(tool[i - 2]));
            }
        }
        unbroken_adds_none(tool_lines(front), unbroken);
        let last = (tool_lines(front) + unbroken).push('\n');
        assert(tool_lines(tools) =~= last);
        assert(last.drop_last() =~= tool_lines(front) + unbroken);
    }
}

proof fn unbroken_adds_none(s: Seq<char>, more: Seq<char>)
    requires
        forall|i: int| 0 <= i < more.len() ==> #[trigger] more[i] != '\n',
    ensures
        line_breaks(s + more) == line_breaks(s),
    decreases more.len(),
{
    reveal(Seq::filter);
    if more.len() == 0 {
        assert(s + more =~= s);
    } else {
        assert((s + more).drop_last() =~= s + more.drop_last());
        assert(more[more.len() - 1] != '\n');
        unbroken_adds_none(s, more.drop_last());
    }
}

/// The file begins with its header, line by line, and what every rule file
/// begins with.
pub proof fn file_begins_with_its_header(args: ScaffoldArgs, tools: Seq<Seq<char>>)
    ensures
        header_text(args, tools) == "# Template:     "@ + args.name@ + "\n"@ + (
        "# Domain:       "@ + args.domain@ + "\n"@) + ("# Severity:     "@ + args.severity@ + "\n"@) + ("# Frameworks:   "@ + joined(
            csv_items(args.frameworks@),
            ", "@,
        ) + "\n"@) + ("# Tags:         "@ + joined(csv_items(args.tags@), ", "@) + "\n"@) + (
        "# Tier:         "@ + args.tier@ + "\n"@) + ("# Tool surface: "@ + joined(tools, ", "@)
            + "\n"@) + ("# Summary:      "@ + (if args.summary@.len() == 0 {
            "Starter policy for "@ + args.domain@ + " domain."@
        } else {
            args.summary@
        }) + "\n"@)
            + "# Purpose:      TODO — describe the rule's intent in one or two lines.\n# Inputs:       input.tool_type\n# Edit:         The named tool set below is the load-bearing knob — tighten\n#               the list to match the tools your agent stack exposes.\n\npackage warden.authz\n\nimport rego.v1\n\n"@,
        header_text(args, tools).is_prefix_of(template_text(args, tools)),
{
    let head = header_text(args, tools);
    let set = tool_set_text(tools);
    let deny = if denies(args.tier@) {
        deny_text(args.name@)
    } else {
        Seq::empty()
    };
    let review = if reviews(args.tier@) {
        review_text(args.name@)
    } else {
        Seq::empty()
    };
    first_of_four(head, set, deny, review);
}

proof fn first_of_four(a: Seq<char>, b: Seq<char>, c: Seq<char>, d: Seq<char>)
    ensures
        a.is_prefix_of(a + b + c + d),
{
    assert((a + b + c + d).subrange(0, a.len() as int) =~= a);
}

/// Behind the set of tools stands the rule of the tier, word for word, with the
/// template's name in it: one that denies, one that asks for review, or both;
/// with any other tier there is none.
pub proof fn rules_follow_the_tier(args: ScaffoldArgs, tools: Seq<Seq<char>>)
    ensures
        ({
            let deny = "deny contains msg if {\n\tsome t in gated_tools\n\tinput.tool_type == t\n\tmsg := sprintf(\n\t\t\"Violation: \\\"%s\\\" is denied by "@
        + args.name@ + ".\",\n\t\t[input.tool_type],\n\t)\n}\n\n"@;
            let review = "review contains msg if {\n\tsome t in gated_tools\n\tinput.tool_type == t\n\tmsg := sprintf(\n\t\t\"Review: \\\"%s\\\" requires operator approval per "@
        + args.name@ + ".\",\n\t\t[input.tool_type],\n\t)\n}\n"@;
            let top = header_text(args, tools) + tool_set_text(tools);
            &&& args.tier@ == "deny"@ ==> template_text(args, tools) == top + deny
            &&& args.tier@ == "review"@ ==> template_text(args, tools) == top + review
            &&& args.tier@ == "mixed"@ ==> template_text(args, tools) == top + deny + review
            &&& args.tier@ != "deny"@ && args.tier@ != "review"@ && args.tier@ != "mixed"@
                ==> template_text(args, tools) == top
        }),
{
    tier_decides_rules(args, tools);
    if !denies(args.tier@) && !reviews(args.tier@) {
        let top = header_text(args, tools) + tool_set_text(tools);
        assert(template_text(args, tools) =~= top);
    }
}

/// A file is written or printed only where a tool is named and the name is safe;
/// the first fault is the one reported.
pub proof fn faults_stop_the_scaffold(args: ScaffoldArgs)
    ensures
        scaffold_step(args) is Write <==> csv_items(args.tool_surface@).len() > 0 && is_slug(
            args.name@,
        ) && !args.stdout,
        scaffold_step(args) matches ScaffoldStepView::Stop(report) ==> {
            &&& report.exit == ExitCode::Success <==> csv_items(args.tool_surface@).len() > 0
                && is_slug(args.name@) && args.stdout
            &&& report.exit != ExitCode::Success ==> report.exit == ExitCode::Validation
                && report.stderr.len() > 0
        },
{
    reveal_strlit("error: ");
}

/// Steps are seen as they are.
pub proof fn steps_are_seen_whole(step: ScaffoldStep)
    ensures
        step matches ScaffoldStep::Stop(report) ==> step@ == ScaffoldStepView::Stop(report@),
        step matches ScaffoldStep::Write(body) ==> step@ == ScaffoldStepView::Write(body@),
{
}

/// What is said of a written file, and of one that could not be written.
pub proof fn writing_is_reported(
    path: Seq<char>,
    body: Seq<char>,
    parent: String,
    message: String,
)
    ensures
        write_outcome_report(path, body, WriteOutcome::Written).exit == ExitCode::Success,
        write_outcome_report(path, body, WriteOutcome::Written).stderr == "wrote "@ + path + " ("@
            + decimal(line_count(body) as nat) + " lines)\n"@,
        write_outcome_report(path, body, WriteOutcome::FolderFailed { parent, message }).exit
            == ExitCode::Server,
        write_outcome_report(path, body, WriteOutcome::FolderFailed { parent, message }).stderr
            == "error: "@ + ("create "@ + parent@ + ": "@ + message@) + "\n"@,
        write_outcome_report(path, body, WriteOutcome::FileFailed { message }).exit
            == ExitCode::Server,
        write_outcome_report(path, body, WriteOutcome::FileFailed { message }).stderr == "error: "@
            + ("write "@ + path + ": "@ + message@) + "\n"@,
{
}

} // verus!
