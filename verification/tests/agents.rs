use warden_ctl::agents::{
    after_lookup, create_report, create_request, description_report, description_text,
    lifecycle_report, list_report, parse_state, plan, record_report, render_record, render_table,
    setup_failed, transfer_report, truncate, AgentsCommand, Ask, Changed, CreateArgs, Created,
    DescriptionArgs, EnvelopeArgs, EnvelopeChangeArgs, EnvelopeDirection, GetArgs, LifecycleArgs,
    LifecycleVerb, ListArgs, Lookup, SetupFault, TransferArgs,
};
use warden_ctl::migrate::{migration_request, MigrateArgs};
use warden_ctl::registry::{AgentRecord, AgentState};
use warden_ctl::report::{Answer, ExitCode, Failure, Printed, Report};

fn rec(name: &str, state: AgentState, owner: &str) -> AgentRecord {
    AgentRecord {
        id: format!("01HW...{name}"),
        tenant: "acme".into(),
        agent_name: name.into(),
        state,
        scope_envelope: vec!["x".into(), "y".into()],
        yellow_envelope: vec![],
        attestation_kinds_accepted: vec![],
        created_by_sub: "u".into(),
        created_by_idp: "okta".into(),
        owner_team: owner.into(),
        created_at: "2026-05-01T00:00:00Z".into(),
        state_changed_at: "2026-05-01T00:00:00Z".into(),
        state_changed_by: "u".into(),
        description: None,
    }
}

fn out(report: &Report) -> &str {
    match &report.stdout {
        Printed::Text(text) => text,
        Printed::Json => panic!("JSON"),
    }
}

fn is_json(report: &Report) -> bool {
    matches!(report.stdout, Printed::Json)
}

fn conflict() -> Failure {
    Failure {
        message: "server 409: taken".into(),
        answer: Some(Answer { status: 409, body: "taken".into() }),
    }
}

fn create_args(if_absent: bool, json: bool) -> CreateArgs {
    CreateArgs {
        tenant: None,
        name: "bot".into(),
        owner_team: "payments".into(),
        scope: vec!["mcp:read:tickets".into()],
        yellow_scope: vec!["mcp:wire".into()],
        attestation_kind: vec!["tpm".into()],
        description: Some("d".into()),
        if_absent,
        json,
    }
}

#[test]
fn truncate_keeps_short_strings_intact() {
    assert_eq!(truncate("abc", 10), "abc");
}

#[test]
fn truncate_caps_long_strings_with_ellipsis() {
    let out = truncate("0123456789abc", 6);
    assert_eq!(out.chars().count(), 6);
    assert!(out.ends_with('…'));
}

#[test]
fn truncate_at_the_limits() {
    assert_eq!(truncate("0123456789abc", 6), "01234…");
    assert_eq!(truncate("abc", 3), "abc");
    assert_eq!(truncate("abc", 1), "a");
    assert_eq!(truncate("abc", 0), "");
    // Bytes decide whether there is room, characters what is kept.
    assert_eq!(truncate("ééé", 4), "ééé…");
    assert_eq!(truncate("ééé", 6), "ééé");
}

#[test]
fn print_table_handles_empty() {
    assert_eq!(render_table(&vec![]), "(no agents)\n");
}

#[test]
fn print_table_handles_mixed_records() {
    let rows = vec![
        rec("support-bot-3", AgentState::Active, "payments"),
        rec("legacy-bot", AgentState::Suspended, "infra"),
    ];
    assert_eq!(
        render_table(&rows),
        "AGENT_NAME     STATE           OWNER_TEAM  SCOPES  YELLOW_SCOPES  ID\n\
         support-bot-3  active          payments         2              0  01HW...support-bot-3\n\
         legacy-bot     suspended       infra            2              0  01HW...legacy-bot\n"
    );
}

#[test]
fn table_columns_line_up_for_long_names() {
    let long = "a-name-that-is-much-longer-than-any-column-will-ever-be";
    let rows = vec![
        rec(long, AgentState::Decommissioned, "a-team-with-a-name-that-does-not-fit-its-column"),
        rec("b", AgentState::Active, "t"),
    ];
    let table = render_table(&rows);
    let lines: Vec<&str> = table.lines().collect();
    assert_eq!(lines.len(), 3);
    let column = |line: &str, id: &str| line.chars().count() - id.chars().count();
    assert_eq!(column(lines[0], "ID"), 40 + 32 + 43);
    assert_eq!(column(lines[1], &rows[0].id), 40 + 32 + 43);
    assert_eq!(column(lines[2], &rows[1].id), 40 + 32 + 43);
    assert!(lines[1].starts_with("a-name-that-is-much-longer-than-any-col…  decommissioned  "));
}

#[test]
fn print_record_renders_all_fields() {
    let r = rec("support-bot-3", AgentState::Active, "payments");
    assert_eq!(
        render_record(&r),
        "id:                          01HW...support-bot-3\n\
         tenant:                      acme\n\
         agent_name:                  support-bot-3\n\
         state:                       active\n\
         owner_team:                  payments\n\
         created_by_sub:              u\n\
         created_by_idp:              okta\n\
         created_at:                  2026-05-01T00:00:00Z\n\
         state_changed_at:            2026-05-01T00:00:00Z\n\
         state_changed_by:            u\n\
         scope_envelope:              [x, y]\n\
         yellow_envelope:             []\n\
         attestation_kinds_accepted:  []\n"
    );
    let mut described = r;
    described.description = Some("a bot".into());
    assert!(render_record(&described).ends_with("description:                 a bot\n"));
}

#[test]
fn setup_faults_have_their_words_and_codes() {
    let url = "http://id.test";
    let r = setup_failed(&SetupFault::Config("bad toml".into()), url);
    assert_eq!(r.stderr, "error: load config: bad toml\n");
    assert_eq!(r.exit, ExitCode::Validation);
    let r = setup_failed(&SetupFault::Credentials("denied".into()), url);
    assert_eq!(r.stderr, "error: load credentials: denied\n");
    assert_eq!(r.exit, ExitCode::Server);
    let r = setup_failed(&SetupFault::Bearer("no cached credentials".into()), url);
    assert_eq!(r.stderr, "error: no cached credentials\n");
    assert_eq!(r.exit, ExitCode::Auth);
    let r = setup_failed(&SetupFault::Url("relative URL".into()), url);
    assert_eq!(r.stderr, "error: invalid identity URL 'http://id.test': relative URL\n");
    assert_eq!(r.exit, ExitCode::Validation);
}

#[test]
fn states_are_parsed_by_name() {
    assert!(matches!(parse_state(&None), Ok(None)));
    assert!(matches!(parse_state(&Some("active".into())), Ok(Some(AgentState::Active))));
    assert!(matches!(parse_state(&Some("suspended".into())), Ok(Some(AgentState::Suspended))));
    assert!(matches!(
        parse_state(&Some("decommissioned".into())),
        Ok(Some(AgentState::Decommissioned))
    ));
    let r = parse_state(&Some("Active".into())).unwrap_err();
    assert_eq!(
        r.stderr,
        "error: invalid --state 'Active' (active|suspended|decommissioned)\n"
    );
    assert_eq!(r.exit, ExitCode::Validation);
}

#[test]
fn a_bad_state_is_told_before_a_bad_setup() {
    let list = |state: &str| {
        AgentsCommand::List(ListArgs {
            tenant: None,
            state: Some(state.into()),
            owner_team: Some("infra".into()),
            json: false,
        })
    };
    let fault = Some(SetupFault::Bearer("no token".into()));
    let r = plan(&list("gone"), "acme", &fault, "u").unwrap_err();
    assert!(r.stderr.contains("invalid --state 'gone'"));
    let r = plan(&list("active"), "acme", &fault, "u").unwrap_err();
    assert_eq!(r.stderr, "error: no token\n");
    let config = Some(SetupFault::Config("bad toml".into()));
    let r = plan(&list("gone"), "acme", &config, "u").unwrap_err();
    assert_eq!(r.stderr, "error: load config: bad toml\n");
    match plan(&list("active"), "acme", &None, "u") {
        Ok(Ask::List { filter }) => {
            assert_eq!(filter.state, Some(AgentState::Active));
            assert_eq!(filter.owner_team.as_deref(), Some("infra"));
        }
        other => panic!("{other:?}"),
    }
}

#[test]
fn each_command_asks_for_what_it_says() {
    let lifecycle = || LifecycleArgs {
        id: "a1".into(),
        tenant: None,
        reason: Some("leak".into()),
        json: false,
    };
    let verb = |command: AgentsCommand| match plan(&command, "acme", &None, "u") {
        Ok(Ask::Lifecycle { verb, id, reason }) => {
            assert_eq!(id, "a1");
            assert_eq!(reason.as_deref(), Some("leak"));
            verb
        }
        other => panic!("{other:?}"),
    };
    assert_eq!(verb(AgentsCommand::Suspend(lifecycle())), LifecycleVerb::Suspend);
    assert_eq!(verb(AgentsCommand::Unsuspend(lifecycle())), LifecycleVerb::Unsuspend);
    assert_eq!(verb(AgentsCommand::Decommission(lifecycle())), LifecycleVerb::Decommission);

    let change = || EnvelopeChangeArgs {
        id: "a1".into(),
        tenant: None,
        scope: vec!["s".into()],
        yellow_scope: vec![],
        json: false,
    };
    let narrow = |direction: EnvelopeDirection| {
        match plan(&AgentsCommand::Envelope(EnvelopeArgs { direction }), "acme", &None, "u") {
            Ok(Ask::Envelope { narrow, id, envelope }) => {
                assert_eq!(id, "a1");
                assert_eq!(envelope.scope_envelope, vec!["s".to_string()]);
                assert!(envelope.yellow_envelope.is_empty());
                narrow
            }
            other => panic!("{other:?}"),
        }
    };
    assert!(narrow(EnvelopeDirection::Narrow(change())));
    assert!(!narrow(EnvelopeDirection::Widen(change())));

    let get = AgentsCommand::Get(GetArgs { id: "a1".into(), tenant: None, json: true });
    assert!(matches!(plan(&get, "acme", &None, "u"), Ok(Ask::Get { id }) if id == "a1"));
    let transfer = AgentsCommand::Transfer(TransferArgs {
        id: "a1".into(),
        tenant: None,
        to_team: "infra".into(),
        json: false,
    });
    assert!(matches!(
        plan(&transfer, "acme", &None, "u"),
        Ok(Ask::Transfer { id, to_team }) if id == "a1" && to_team == "infra"
    ));
    match plan(&AgentsCommand::Create(create_args(true, false)), "acme", &None, "u") {
        Ok(Ask::Create { request, look_first }) => {
            assert!(look_first);
            assert_eq!(request.tenant, "acme");
        }
        other => panic!("{other:?}"),
    }
}

#[test]
fn a_description_needs_text_or_clear() {
    let args = |text: Option<&str>, clear: bool| DescriptionArgs {
        id: "a1".into(),
        tenant: None,
        text: text.map(str::to_string),
        clear,
        json: false,
    };
    assert_eq!(description_text(&args(Some("new"), false)).unwrap().as_deref(), Some("new"));
    assert_eq!(description_text(&args(None, true)).unwrap(), None);
    for empty in [None, Some("")] {
        let r = description_text(&args(empty, false)).unwrap_err();
        assert_eq!(
            r.stderr,
            "error: pass --text \"…\" or --clear to remove the description\n"
        );
        assert_eq!(r.exit, ExitCode::Validation);
    }
}

#[test]
fn a_hand_made_row_names_no_actor() {
    let made = create_request(&create_args(false, false), "acme");
    assert_eq!(made.tenant, "acme");
    assert_eq!(made.agent_name, "bot");
    assert_eq!(made.owner_team, "payments");
    assert_eq!(made.scope_envelope, vec!["mcp:read:tickets".to_string()]);
    assert_eq!(made.yellow_envelope, vec!["mcp:wire".to_string()]);
    assert_eq!(made.attestation_kinds, vec!["tpm".to_string()]);
    assert_eq!(made.description.as_deref(), Some("d"));
    assert_eq!(made.actor_sub, None);
    let migrated = migration_request(
        &MigrateArgs {
            tenant: None,
            names: "names.txt".into(),
            default_owner_team: "payments".into(),
            default_scope: vec![],
            default_yellow_scope: vec![],
            default_attestation_kind: vec![],
            dry_run: false,
            json: false,
        },
        "acme",
        "bot",
        "system:migration:u",
    );
    assert_eq!(migrated.actor_sub.as_deref(), Some("system:migration:u"));
}

#[test]
fn if_absent_never_overwrites() {
    let args = create_args(true, false);
    assert!(after_lookup(&args, &Lookup::Absent).is_none());
    let same = after_lookup(&args, &Lookup::Present { id: "01".into(), equal: true }).unwrap();
    assert_eq!(out(&same), "agent 'bot' already matches (id 01)\n");
    assert_eq!(same.exit, ExitCode::Success);
    let drifted = after_lookup(&args, &Lookup::Present { id: "01".into(), equal: false }).unwrap();
    assert_eq!(
        drifted.stderr,
        "error: agent 'bot' exists with a different envelope/owner_team/kinds; reconcile manually\n"
    );
    assert_eq!(drifted.exit, ExitCode::Conflict);
    let failed = after_lookup(&args, &Lookup::Failed(conflict())).unwrap();
    assert_eq!(failed.stderr, "error: pre-fetch failed: server 409: taken\n");
    assert_eq!(failed.exit, ExitCode::Conflict);
}

#[test]
fn a_matching_row_is_told_as_json() {
    let args = create_args(true, true);
    let same = after_lookup(&args, &Lookup::Present { id: "a\"b".into(), equal: true }).unwrap();
    let expected = serde_json::Value::Object(
        [
            ("status".to_string(), serde_json::Value::from("matched")),
            ("id".to_string(), serde_json::Value::from("a\"b")),
        ]
        .into_iter()
        .collect(),
    );
    assert_eq!(out(&same), format!("{}\n", serde_json::to_string_pretty(&expected).unwrap()));
    assert_eq!(out(&same), "{\n  \"id\": \"a\\\"b\",\n  \"status\": \"matched\"\n}\n");
}

#[test]
fn reports_of_success() {
    let row = || Ok(rec("bot", AgentState::Active, "infra"));
    let rows = Ok(vec![rec("bot", AgentState::Active, "infra")]);
    assert_eq!(out(&list_report(false, &rows)), render_table(&rows.unwrap()));
    assert!(is_json(&list_report(true, &Ok(vec![]))));
    assert_eq!(out(&record_report(false, &row())), render_record(&row().unwrap()));
    assert!(is_json(&record_report(true, &row())));
    let created = Ok(Created {
        record: rec("bot", AgentState::Active, "infra"),
        spiffe_id_pattern: "spiffe://acme/bot/*".into(),
    });
    assert_eq!(
        out(&create_report(false, &created)),
        "registered agent 'bot' (id 01HW...bot, state active)\n\
         spiffe_id_pattern: spiffe://acme/bot/*\n"
    );
    let life = LifecycleArgs { id: "a1".into(), tenant: None, reason: None, json: false };
    let changed = Ok(Changed { state: AgentState::Suspended, state_changed_at: "then".into() });
    assert_eq!(
        out(&lifecycle_report(&life, &changed)),
        "agent a1 → suspended (changed at then)\n"
    );
    let transfer =
        TransferArgs { id: "a1".into(), tenant: None, to_team: "infra".into(), json: false };
    assert_eq!(out(&transfer_report(&transfer, &row())), "agent a1 owner_team → infra\n");
    let describe =
        DescriptionArgs { id: "a1".into(), tenant: None, text: None, clear: true, json: false };
    assert_eq!(out(&description_report(&describe, &row())), "agent a1 description: (cleared)\n");
}

#[test]
fn reports_of_failure() {
    let rows: Result<Vec<AgentRecord>, Failure> = Err(conflict());
    let r = list_report(true, &rows);
    assert_eq!(r.stderr, "error: server 409: taken\n");
    assert_eq!(out(&r), "");
    assert_eq!(r.exit, ExitCode::Conflict);
    let r = create_report(
        false,
        &Err(Failure { message: "transport: refused".into(), answer: None }),
    );
    assert_eq!(r.stderr, "error: transport: refused\n");
    assert_eq!(r.exit, ExitCode::Server);
}
