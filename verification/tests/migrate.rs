use warden_ctl::migrate::{
    actor, migration_request, outcomes_json, parse_names, read_names, render_outcomes, Action, Found,
    MigrateArgs, MigrateStep, Migration, Outcome, MIGRATION_ACTOR_SUB_PREFIX,
};
use warden_ctl::report::{ExitCode, Printed};

#[test]
fn read_names_file_skips_comments_and_blanks() {
    let body = format!("{}\n", "# header comment\n\nsupport-bot-3\n  legacy-bot\n# trailing\n");
    let names = read_names("names.txt", &Ok(body)).unwrap();
    assert_eq!(names, vec!["support-bot-3".to_string(), "legacy-bot".into()]);
}

#[test]
fn read_names_file_dedups_preserving_order() {
    let body = format!("{}\n", "a\nb\na\nc\nb");
    let names = read_names("names.txt", &Ok(body)).unwrap();
    assert_eq!(names, vec!["a".to_string(), "b".into(), "c".into()]);
}

#[test]
fn names_with_carriage_returns_are_trimmed() {
    assert_eq!(parse_names("a\r\n\tb \r\n#c\r\n\u{3000}d"), vec!["a", "b", "d"]);
    assert!(parse_names("").is_empty());
}

#[test]
fn names_that_are_written_out_read_back() {
    let names = vec!["one".to_string(), "two".into(), "three".into()];
    assert_eq!(parse_names(&names.join("\n")), names);
}

#[test]
fn no_names_is_no_error() {
    let report = read_names("n.txt", &Ok("# none\n".into())).unwrap_err();
    assert_eq!(report.stderr, "(no names in n.txt — nothing to migrate)\n");
    assert_eq!(report.exit, ExitCode::Success);
    let report = read_names("n.txt", &Err("not found".into())).unwrap_err();
    assert_eq!(report.stderr, "error: --names n.txt: not found\n");
    assert_eq!(report.exit, ExitCode::Validation);
}

/// Audit consumers tell migrated rows by this prefix.
#[test]
fn migration_prefix_constant_is_stable() {
    assert_eq!(MIGRATION_ACTOR_SUB_PREFIX, "system:migration:");
}

#[test]
fn the_actor_is_marked() {
    let a = actor(&Ok(Some("alice".into())));
    assert_eq!(a.actor_sub, "system:migration:alice");
    assert_eq!(a.warning, "");
    let a = actor(&Err("bad base64".into()));
    assert_eq!(a.actor_sub, "system:migration:unknown");
    assert_eq!(a.warning, "warn: could not decode id_token sub claim: bad base64\n");
}

fn mixed() -> Vec<Outcome> {
    vec![
        Outcome {
            name: "support-bot-3".into(),
            action: Action::Created,
            id: Some("01HW...A001".into()),
            error: None,
        },
        Outcome {
            name: "legacy-bot".into(),
            action: Action::Matched,
            id: Some("01HW...A002".into()),
            error: None,
        },
        Outcome {
            name: "ghost-bot".into(),
            action: Action::Drift,
            id: Some("01HW...A003".into()),
            error: Some("envelope differs".into()),
        },
        Outcome {
            name: "broken-bot".into(),
            action: Action::Failed,
            id: None,
            error: Some("transport: refused".into()),
        },
    ]
}

#[test]
fn print_outcomes_handles_mixed() {
    assert_eq!(
        render_outcomes(&mixed(), false),
        format!(
            "{:<13}  {:<7}  ID                                   ERROR\n\
             {:<13}  {:<7}  {:<36}  \n\
             {:<13}  {:<7}  {:<36}  \n\
             {:<13}  {:<7}  {:<36}  envelope differs\n\
             {:<13}  {:<7}  {:<36}  transport: refused\n\
             \n\
             created: 1  drift: 1  failed: 1  matched: 1\n",
            "NAME",
            "ACTION",
            "support-bot-3",
            "created",
            "01HW...A001",
            "legacy-bot",
            "matched",
            "01HW...A002",
            "ghost-bot",
            "drift",
            "01HW...A003",
            "broken-bot",
            "failed",
            "",
        )
    );
}

#[test]
fn a_dry_run_says_so() {
    let rows = vec![Outcome {
        name: "a".into(),
        action: Action::WouldCreate,
        id: None,
        error: None,
    }];
    assert!(render_outcomes(&rows, true).ends_with("\n\nDRY-RUN  would-create: 1\n"));
    assert_eq!(render_outcomes(&vec![], false), "(no rows)\n");
}

#[test]
fn a_migration_takes_one_name_after_another() {
    let mut m = Migration::new(
        vec!["new".into(), "same".into(), "other".into(), "lost".into(), "refused".into()],
        false,
    );
    assert_eq!(m.next_name().unwrap(), "new");
    assert_eq!(m.found(Found::Absent), MigrateStep::Create);
    m.created(Ok("01".into()));
    assert_eq!(m.next_name().unwrap(), "same");
    assert_eq!(m.found(Found::Present { id: "02".into(), matches: true }), MigrateStep::Next);
    assert_eq!(m.found(Found::Present { id: "03".into(), matches: false }), MigrateStep::Next);
    assert_eq!(m.found(Found::Failed { message: "503".into() }), MigrateStep::Next);
    assert_eq!(m.found(Found::Absent), MigrateStep::Create);
    m.created(Err("server 409".into()));
    assert!(m.next_name().is_none());
    let actions: Vec<Action> = m.outcomes.iter().map(|o| o.action).collect();
    assert_eq!(
        actions,
        vec![Action::Created, Action::Matched, Action::Drift, Action::Failed, Action::Failed]
    );
    assert_eq!(m.outcomes[2].id.as_deref(), Some("03"));
    assert_eq!(
        m.outcomes[2].error.as_deref(),
        Some("existing row's envelope/owner_team/kinds differ from defaults")
    );
    assert_eq!(m.outcomes[3].error.as_deref(), Some("find: 503"));
    let report = m.report(false);
    assert_eq!(report.exit, ExitCode::Server);
    match report.stdout {
        Printed::Text(text) => assert_eq!(text, render_outcomes(&m.outcomes, false)),
        Printed::Json => panic!("JSON"),
    }
    match m.report(true).stdout {
        Printed::Text(text) => assert_eq!(text, format!("{}\n", outcomes_json(&m.outcomes))),
        Printed::Json => panic!("JSON"),
    }
}

#[test]
fn drift_alone_is_no_failure() {
    let mut m = Migration::new(vec!["other".into()], false);
    m.found(Found::Present { id: "03".into(), matches: false });
    assert_eq!(m.report(false).exit, ExitCode::Success);
}

#[test]
fn a_dry_run_creates_nothing() {
    let mut m = Migration::new(vec!["a".into()], true);
    assert_eq!(m.found(Found::Absent), MigrateStep::Next);
    assert_eq!(m.outcomes[0].action, Action::WouldCreate);
    assert_eq!(m.outcomes[0].action.as_str(), "would-create");
    assert!(m.next_name().is_none());
}

#[test]
fn every_row_gets_the_defaults() {
    let args = MigrateArgs {
        tenant: None,
        names: "n.txt".into(),
        default_owner_team: "infra".into(),
        default_scope: vec!["s".into()],
        default_yellow_scope: vec!["y".into()],
        default_attestation_kind: vec!["k".into()],
        dry_run: false,
        json: false,
    };
    let request = migration_request(&args, "acme", "bot", "system:migration:u");
    assert_eq!(request.agent_name, "bot");
    assert_eq!(request.owner_team, "infra");
    assert_eq!(request.scope_envelope, vec!["s".to_string()]);
    assert_eq!(request.yellow_envelope, vec!["y".to_string()]);
    assert_eq!(request.attestation_kinds, vec!["k".to_string()]);
    assert_eq!(request.description, None);
}

#[test]
fn outcomes_are_written_as_json() {
    assert_eq!(
        outcomes_json(&mixed()),
        "[\n  \
           {\n    \
             \"name\": \"support-bot-3\",\n    \
             \"action\": \"created\",\n    \
             \"id\": \"01HW...A001\"\n  \
           },\n  \
           {\n    \
             \"name\": \"legacy-bot\",\n    \
             \"action\": \"matched\",\n    \
             \"id\": \"01HW...A002\"\n  \
           },\n  \
           {\n    \
             \"name\": \"ghost-bot\",\n    \
             \"action\": \"drift\",\n    \
             \"id\": \"01HW...A003\",\n    \
             \"error\": \"envelope differs\"\n  \
           },\n  \
           {\n    \
             \"name\": \"broken-bot\",\n    \
             \"action\": \"failed\",\n    \
             \"error\": \"transport: refused\"\n  \
           }\n]"
    );
    assert_eq!(outcomes_json(&vec![]), "[]");
    let read: serde_json::Value = serde_json::from_str(&outcomes_json(&mixed())).unwrap();
    assert_eq!(read.as_array().unwrap().len(), 4);
    assert!(read[0].get("error").is_none());
}
