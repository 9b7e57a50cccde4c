use warden_ctl::json::Pair;
use warden_ctl::policy_lab::{
    bad_ledger_url, batch_request, catalog_inputs, catalog_request, corpus_query, count_diffs,
    count_regressions, make_plan, make_window, parse_window, part_rows, plan_test, render_human,
    stamped, surface_batch_error, unreadable, window_start, AgainstArg, BatchFault, CompileFault,
    Corpus, CorpusRow, DiffClass, Lab, LabAsk, ModeArg, Planned, Reply, Responses, Surroundings,
    TestArgs, TestPlan, Window, WindowUnit,
};
use warden_ctl::report::{Answer, ExitCode, Failure, Printed, Report};
use warden_ctl::time::Instant;

fn args(since: &str) -> TestArgs {
    TestArgs {
        file: "rules/candidate.rego".into(),
        name: None,
        mode: ModeArg::Add,
        replace: None,
        against: AgainstArg::Both,
        since: since.into(),
        limit: 1000,
        agent_id: None,
        tool_type: None,
        json: false,
        ledger_url: None,
        policy_url: None,
        fail_on_regression: false,
    }
}

fn around() -> Surroundings {
    Surroundings {
        file_name: Some("candidate.rego".into()),
        now: Instant { secs: 1_000_000, nanos: 500_000_000 },
        ledger_env: None,
        policy_env: Some("http://policy.env".into()),
    }
}

fn plan(a: &TestArgs) -> TestPlan {
    match plan_test(a, &around()) {
        Planned::Ready(plan) => plan,
        other => panic!("{other:?}"),
    }
}

fn window(count: i64, unit: WindowUnit) -> Window {
    Window { count, unit }
}

#[test]
fn windows_are_a_number_and_a_unit() {
    assert_eq!(parse_window("7d"), Ok(window(7, WindowUnit::Days)));
    assert_eq!(parse_window("24h"), Ok(window(24, WindowUnit::Hours)));
    assert_eq!(parse_window("-5m"), Ok(window(-5, WindowUnit::Minutes)));
    assert_eq!(parse_window("+1h"), Ok(window(1, WindowUnit::Hours)));
}

#[test]
fn other_windows_are_refused() {
    assert_eq!(parse_window(""), Err("empty".to_string()));
    assert_eq!(
        parse_window("7é"),
        Err("unknown unit \"é\"; expected d|h|m".to_string())
    );
    assert_eq!(
        parse_window("7w"),
        Err("unknown unit \"w\"; expected d|h|m".to_string())
    );
    for (text, number) in [("d", ""), ("xd", "x"), ("9223372036854775808d", "9223372036854775808")] {
        let words = number.parse::<i64>().unwrap_err().to_string();
        assert_eq!(parse_window(text), Err(format!("not a number: {words}")));
    }
    assert_eq!(
        make_window(Ok(1), '"', "\"\\\"\""),
        Err("unknown unit \"\\\"\"; expected d|h|m".to_string())
    );
}

#[test]
fn a_window_reaches_back_from_now() {
    let now = Instant { secs: 1_000_000, nanos: 5 };
    let start = |w: Window| window_start(now, &w);
    assert_eq!(
        start(window(1, WindowUnit::Days)),
        Some(Instant { secs: 913_600, nanos: 5 })
    );
    assert_eq!(start(window(24, WindowUnit::Hours)), start(window(1, WindowUnit::Days)));
    assert_eq!(start(window(60, WindowUnit::Minutes)), start(window(1, WindowUnit::Hours)));
    assert_eq!(start(window(i64::MAX, WindowUnit::Minutes)), None);
}

#[test]
fn a_plan_has_names_and_addresses() {
    let p = plan(&args("1d"));
    assert_eq!(p.candidate_name, "candidate.rego");
    assert_eq!(p.since, Instant { secs: 913_600, nanos: 500_000_000 });
    assert_eq!(p.since_text, "1970-01-11T13:46:40.500+00:00");
    assert_eq!(p.ledger_url, "http://localhost:8083");
    assert_eq!(p.policy_url, "http://policy.env");
    let mut a = args("1d");
    a.name = Some("named".into());
    a.mode = ModeArg::Replace;
    a.replace = Some("old_rule".into());
    a.policy_url = Some("http://flag".into());
    let p = plan(&a);
    assert_eq!(p.candidate_name, "named");
    assert_eq!(p.replace.as_deref(), Some("old_rule"));
    assert_eq!(p.policy_url, "http://flag");
    let mut bare = around();
    bare.file_name = None;
    let p = make_plan(&args("1d"), &bare, Instant { secs: 0, nanos: 0 }, "epoch".into());
    assert_eq!(p.candidate_name, "candidate.rego");
}

#[test]
fn bad_arguments_stop_a_test() {
    let mut a = args("1d");
    a.mode = ModeArg::Replace;
    match plan_test(&a, &around()) {
        Planned::Stop(report) => {
            assert_eq!(
                report.stderr,
                "error: --mode replace requires --replace <rule-name>\n"
            );
            assert_eq!(report.exit, ExitCode::Validation);
        }
        other => panic!("{other:?}"),
    }
    match plan_test(&args("soonish"), &around()) {
        Planned::Stop(report) => {
            assert!(report.stderr.starts_with("error: --since: not a number: "));
            assert_eq!(report.exit, ExitCode::Validation);
        }
        other => panic!("{other:?}"),
    }
    // The first is too long for a span, the second leads out of the calendar.
    for far in ["9999999999999999d", "99999999999d"] {
        match plan_test(&args(far), &around()) {
            Planned::Stop(report) => {
                assert_eq!(report.stderr, "error: --since: out of range\n");
                assert_eq!(report.exit, ExitCode::Validation);
            }
            other => panic!("{other:?}"),
        }
    }
}

#[test]
fn the_catalog_is_a_fixed_shortlist() {
    let inputs = catalog_inputs();
    let tools: Vec<&str> = inputs.iter().map(|i| i.tool_type.as_str()).collect();
    assert_eq!(
        tools,
        vec![
            "shell_exec",
            "sql_execute",
            "read_only",
            "bulk_export",
            "read_only",
            "wire_transfer",
            "bulk_export",
            "read_only"
        ]
    );
    assert_eq!(inputs[2].intent_percent, 95);
    assert_eq!(inputs[0].intent_percent, 5);
    assert_eq!(inputs[3].current_time, "2026-04-29T22:00:00Z");
    assert_eq!(inputs[6].current_time, "2026-04-29T14:00:00Z");
    assert_eq!(inputs[4].recent_request_count, 101);
    assert_eq!(inputs[7].recent_request_count, 0);
    assert_eq!(inputs[5].agent_id, "catalog-bot");
    assert_eq!(inputs[5].method, "tools/call");
    assert_eq!(inputs[5].agent_kind, "mcp");
}

fn diffs() -> Vec<DiffClass> {
    vec![
        DiffClass::AllowToDeny,
        DiffClass::AllowToYellow,
        DiffClass::DenyToAllow,
        DiffClass::DenyToAllow,
        DiffClass::YellowToAllow,
        DiffClass::Unchanged,
        DiffClass::Other,
    ]
}

#[test]
fn verdicts_are_counted() {
    let counts = count_diffs(&diffs());
    assert_eq!(counts.allow_to_deny, 1);
    assert_eq!(counts.allow_to_yellow, 1);
    assert_eq!(counts.deny_to_allow, 2);
    assert_eq!(counts.unchanged, 1);
    assert_eq!(counts.other, 2);
    assert_eq!(count_regressions(&diffs()), 2);
    assert_eq!(count_regressions(&vec![DiffClass::YellowToAllow]), 0);
}

#[test]
fn the_summary_has_a_part_for_each_set() {
    assert_eq!(
        render_human("c.rego", ModeArg::Add, "then", 9, &Some(diffs()), &Some(diffs())),
        "Policy Lab — c.rego (mode: add)\n\
         \n\
         Production corpus  (since then, 7 replayed of 9 in window)\n  \
           Allow → Deny     1\n  \
           Allow → Yellow   1\n  \
           Deny  → Allow    2\n  \
           unchanged        1\n\
         \n\
         Chaos catalog (7 attacks)\n  \
           Allow → Deny     1\n  \
           Deny  → Allow (regression)  2\n  \
           unchanged        1\n  \
           Regressions: 2\n"
    );
    assert_eq!(
        render_human("c.rego", ModeArg::Replace, "then", 0, &None, &None),
        "Policy Lab — c.rego (mode: replace)\n\n"
    );
}

#[test]
fn a_lab_asks_in_order() {
    let p = plan(&args("1d"));
    let mut lab = Lab::start(AgainstArg::Both);
    assert_eq!(lab.ask, LabAsk::Corpus);
    let corpus = Ok(Corpus { total_in_window: 12, returned: 7, times: times(7) });
    assert_eq!(lab.corpus(&corpus, &p.since_text, false).unwrap(), "");
    assert_eq!(lab.ask, LabAsk::Production);
    assert!(lab.production(Ok(diffs())).is_none());
    assert_eq!(lab.ask, LabAsk::Catalog);
    assert!(lab.catalog(Ok(diffs())).is_none());
    assert_eq!(lab.ask, LabAsk::Nothing);
    assert_eq!(lab.catalog_regressions(), 2);
    let report = lab.report("c.rego", &p, false, &responses(), true);
    assert_eq!(report.exit, ExitCode::Validation);
    match report.stdout {
        Printed::Text(text) => assert_eq!(
            text,
            render_human(
                "c.rego",
                ModeArg::Add,
                &p.since_text,
                12,
                &Some(diffs()),
                &Some(diffs())
            )
        ),
        Printed::Json => panic!("JSON"),
    }
    let report = lab.report("c.rego", &p, true, &responses(), false);
    assert_eq!(report.exit, ExitCode::Success);
}

fn times(n: usize) -> Vec<String> {
    (0..n).map(|i| format!("2026-04-0{}T00:00:00Z", i + 1)).collect()
}

fn member(name: &str, value: &str) -> Pair {
    Pair { name: name.into(), value: value.into() }
}

fn responses() -> Responses {
    Responses {
        production: Reply {
            head: vec![member("engine", "{\n  \"version\": 3\n}")],
            results: vec![
                vec![member("after", "[\n  \"deny\"\n]"), member("before", "[]")],
                vec![member("after", "[]")],
            ],
            tail: vec![member("took_ms", "5")],
        },
        catalog: Reply { head: vec![], results: vec![vec![member("a", "1")]], tail: vec![] },
    }
}

/// The summary as the JSON crate writes it.
fn summary(production: serde_json::Value, catalog: serde_json::Value, n: u64) -> String {
    let object = |members: Vec<(&str, serde_json::Value)>| {
        serde_json::Value::Object(
            members.into_iter().map(|(k, v)| (k.to_string(), v)).collect(),
        )
    };
    let window = object(vec![
        ("since", "1970-01-11T13:46:40.500+00:00".into()),
        ("total_in_window", 12.into()),
        ("returned", 7.into()),
    ]);
    let whole = object(vec![
        ("production", production),
        ("production_window", window),
        ("catalog", catalog),
        ("catalog_regressions", n.into()),
    ]);
    format!("{}\n", serde_json::to_string_pretty(&whole).unwrap())
}

fn printed(report: &Report) -> &str {
    match &report.stdout {
        Printed::Text(text) => text,
        Printed::Json => panic!("JSON"),
    }
}

#[test]
fn the_json_summary_holds_both_responses() {
    let p = plan(&args("1d"));
    let corpus = Ok(Corpus { total_in_window: 12, returned: 7, times: times(2) });
    let mut lab = Lab::start(AgainstArg::Both);
    lab.corpus(&corpus, &p.since_text, true).unwrap();
    lab.production(Ok(diffs()));
    lab.catalog(Ok(diffs()));
    let parsed = |text: &str| serde_json::from_str::<serde_json::Value>(text).unwrap();
    let r = responses();
    let production = "{\"engine\": {\"version\": 3}, \"results\": [\
        {\"after\": [\"deny\"], \"before\": [], \"captured_at\": \"2026-04-01T00:00:00Z\"}, \
        {\"after\": [], \"captured_at\": \"2026-04-02T00:00:00Z\"}], \"took_ms\": 5}";
    assert_eq!(
        printed(&lab.report("c.rego", &p, true, &r, false)),
        summary(parsed(production), parsed("{\"results\": [{\"a\": 1}]}"), 2)
    );
    let mut lab = Lab::start(AgainstArg::Prod);
    lab.corpus(&corpus, &p.since_text, true).unwrap();
    lab.production(Ok(diffs()));
    assert_eq!(
        printed(&lab.report("c.rego", &p, true, &r, true)),
        summary(parsed(production), serde_json::Value::Null, 0)
    );
}

#[test]
fn each_result_gets_the_time_of_its_row() {
    let rows = vec![
        CorpusRow { captured_at: "first".into(), input: 10 },
        CorpusRow { captured_at: "second".into(), input: 20 },
    ];
    let recorded = part_rows(rows);
    assert_eq!(recorded.inputs, vec![10, 20]);
    assert_eq!(recorded.times, vec!["first", "second"]);
    let results = vec![vec![member("n", "1")], vec![], vec![member("n", "3")]];
    assert_eq!(
        stamped(&results, &recorded.times),
        vec![
            "{\n  \"n\": 1,\n  \"captured_at\": \"first\"\n}",
            "{\n  \"captured_at\": \"second\"\n}",
            "{\n  \"n\": 3\n}",
        ]
    );
}

#[test]
fn a_review_that_is_waived_is_no_regression() {
    let p = plan(&args("1d"));
    let mut lab = Lab::start(AgainstArg::Catalog);
    lab.catalog(Ok(vec![DiffClass::YellowToAllow, DiffClass::Unchanged]));
    assert_eq!(lab.report("c.rego", &p, false, &responses(), true).exit, ExitCode::Success);
    let mut lab = Lab::start(AgainstArg::Catalog);
    lab.catalog(Ok(vec![DiffClass::Unchanged, DiffClass::DenyToAllow]));
    assert_eq!(lab.report("c.rego", &p, false, &responses(), true).exit, ExitCode::Validation);
    assert_eq!(lab.report("c.rego", &p, false, &responses(), false).exit, ExitCode::Success);
}

#[test]
fn every_batch_carries_the_candidate() {
    let mut a = args("1d");
    a.mode = ModeArg::Replace;
    a.replace = Some("old_rule".into());
    let p = plan(&a);
    let sent = batch_request(&p, "package warden.authz", vec![1, 2]);
    assert_eq!(sent.candidate_rego, "package warden.authz");
    assert_eq!(sent.candidate_name, "candidate.rego");
    assert_eq!(sent.mode, ModeArg::Replace);
    assert_eq!(sent.replace_rule_name.as_deref(), Some("old_rule"));
    assert_eq!(sent.inputs, vec![1, 2]);
    let sent = catalog_request(&p, "text");
    assert_eq!(sent.candidate_rego, "text");
    assert_eq!(sent.replace_rule_name.as_deref(), Some("old_rule"));
    assert_eq!(sent.inputs.len(), catalog_inputs().len());
    assert_eq!(sent.inputs[5].tool_type, "wire_transfer");
}

#[test]
fn the_ledger_is_asked_for_the_window() {
    let mut a = args("1d");
    a.agent_id = Some("bot".into());
    a.limit = 5001;
    let p = plan(&a);
    let query = corpus_query(&a, &p);
    assert_eq!(query.since, p.since);
    assert_eq!(query.until, None);
    assert_eq!(query.agent_id.as_deref(), Some("bot"));
    assert_eq!(query.tool_type, None);
    assert_eq!(query.limit, 5000);
    a.limit = 1000;
    assert_eq!(corpus_query(&a, &p).limit, 1000);
}

#[test]
fn an_empty_corpus_is_told_and_passed_over() {
    let empty = Ok(Corpus { total_in_window: 3, returned: 0, times: vec![] });
    let mut lab = Lab::start(AgainstArg::Prod);
    assert_eq!(
        lab.corpus(&empty, "then", false).unwrap(),
        "Production corpus  (since then): 0 replayable rows\n"
    );
    assert_eq!(lab.ask, LabAsk::Nothing);
    let mut lab = Lab::start(AgainstArg::Both);
    assert_eq!(lab.corpus(&empty, "then", true).unwrap(), "");
    assert_eq!(lab.ask, LabAsk::Catalog);
    assert_eq!(lab.total_in_window, 3);
    assert_eq!(Lab::start(AgainstArg::Catalog).ask, LabAsk::Catalog);
}

#[test]
fn a_lost_ledger_is_a_server_error() {
    let mut lab = Lab::start(AgainstArg::Prod);
    let report = lab.corpus(&Err("server 400: no".into()), "then", false).unwrap_err();
    assert_eq!(
        report.stderr,
        "error: pull replay corpus from ledger: server 400: no\n"
    );
    assert_eq!(report.exit, ExitCode::Server);
}

fn fault(status: u16, compile_fault: Option<CompileFault>) -> BatchFault {
    BatchFault {
        failure: Failure {
            message: "m".into(),
            answer: Some(Answer { status, body: "b".into() }),
        },
        compile_fault,
    }
}

#[test]
fn compile_errors_are_told_with_their_place() {
    let e = |line: Option<u64>, column: Option<u64>| {
        Some(CompileFault { message: "unexpected }".into(), line, column })
    };
    let report = surface_batch_error(&fault(400, e(Some(3), Some(14))));
    assert_eq!(
        report.stderr,
        "error: candidate failed to compile:\n  unexpected }\n  at line 3, column 14\n"
    );
    assert_eq!(report.exit, ExitCode::Validation);
    let report = surface_batch_error(&fault(400, e(Some(3), None)));
    assert_eq!(report.stderr, "error: candidate failed to compile:\n  unexpected }\n");
    let report = surface_batch_error(&fault(400, None));
    assert_eq!(report.stderr, "error: evaluate-batch: m\n");
    assert_eq!(report.exit, ExitCode::Validation);
    let report = surface_batch_error(&fault(403, e(None, None)));
    assert_eq!(report.stderr, "error: evaluate-batch: m\n");
    assert_eq!(report.exit, ExitCode::Auth);
}

#[test]
fn a_failed_batch_ends_the_lab() {
    let mut lab = Lab::start(AgainstArg::Catalog);
    let report = lab.catalog(Err(fault(503, None))).unwrap();
    assert_eq!(report.exit, ExitCode::Server);
}

#[test]
fn lab_faults_have_their_words() {
    let report = unreadable("c.rego", "not found");
    assert_eq!(report.stderr, "error: read c.rego: not found\n");
    assert_eq!(report.exit, ExitCode::Validation);
    let report = bad_ledger_url("nope", "relative");
    assert_eq!(report.stderr, "error: ledger url nope: relative\n");
    assert_eq!(report.exit, ExitCode::Validation);
}
