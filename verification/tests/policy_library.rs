use warden_ctl::policy_library::{
    apply_filters, bad_policy_url, contradiction, filters_of, install_report, install_request,
    kept_places, list, render_table, Installed, LibraryFilters, LibraryInstallArgs, LibraryListArgs, PolicyTemplate,
};
use warden_ctl::report::{Answer, ExitCode, Failure, Printed};

fn t(name: &str, domain: &str, severity: &str, tier: &str, installed: bool) -> PolicyTemplate {
    PolicyTemplate {
        name: name.into(),
        content_type: "rego".into(),
        domain: Some(domain.into()),
        severity: Some(severity.into()),
        frameworks: vec!["HIPAA".into()],
        tags: vec!["pii".into()],
        tier: Some(tier.into()),
        tool_surface: vec!["phi_export".into()],
        summary: Some("test".into()),
        installed,
    }
}

fn fixtures() -> Vec<PolicyTemplate> {
    vec![
        t("phi_egress.rego", "healthcare", "high", "deny", false),
        t("money_moves.rego", "finance", "critical", "mixed", true),
        t("repo_scope.rego", "coding", "medium", "review", false),
    ]
}

fn empty_filters() -> LibraryFilters {
    LibraryFilters {
        domain: Vec::new(),
        severity: Vec::new(),
        framework: Vec::new(),
        tier: Vec::new(),
        installed_only: false,
        not_installed: false,
    }
}

fn list_args() -> LibraryListArgs {
    LibraryListArgs {
        domain: Vec::new(),
        severity: Vec::new(),
        framework: Vec::new(),
        tier: Vec::new(),
        installed_only: false,
        not_installed: false,
        json: false,
        policy_url: None,
    }
}

fn install_args(reason: &str) -> LibraryInstallArgs {
    LibraryInstallArgs {
        name: "phi_egress.rego".into(),
        reason: reason.into(),
        actor_sub: "wardenctl".into(),
        actor_idp: "ci".into(),
        policy_url: None,
    }
}

fn answered(status: u16) -> Failure {
    Failure {
        message: format!("server {status}: words"),
        answer: Some(Answer { status, body: "words".into() }),
    }
}

#[test]
fn no_filters_returns_everything() {
    let out = apply_filters(fixtures(), &empty_filters());
    assert_eq!(out.len(), 3);
}

#[test]
fn domain_filter_keeps_matches() {
    let mut f = empty_filters();
    f.domain = vec!["healthcare".into()];
    let out = apply_filters(fixtures(), &f);
    assert_eq!(out.len(), 1);
    assert_eq!(out[0].name, "phi_egress.rego");
}

#[test]
fn multi_value_domain_is_or_within_facet() {
    let mut f = empty_filters();
    f.domain = vec!["healthcare".into(), "finance".into()];
    let out = apply_filters(fixtures(), &f);
    assert_eq!(out.len(), 2);
}

#[test]
fn installed_only_drops_uninstalled() {
    let mut f = empty_filters();
    f.installed_only = true;
    let out = apply_filters(fixtures(), &f);
    assert_eq!(out.len(), 1);
    assert_eq!(out[0].name, "money_moves.rego");
}

#[test]
fn not_installed_drops_installed() {
    let mut f = empty_filters();
    f.not_installed = true;
    let out = apply_filters(fixtures(), &f);
    assert_eq!(out.len(), 2);
    assert!(out.iter().all(|t| !t.installed));
}

#[test]
fn severity_and_tier_compose_as_and() {
    let mut f = empty_filters();
    f.severity = vec!["high".into()];
    f.tier = vec!["deny".into()];
    let out = apply_filters(fixtures(), &f);
    assert_eq!(out.len(), 1);
    assert_eq!(out[0].name, "phi_egress.rego");
}

#[test]
fn a_missing_value_passes_no_facet() {
    let mut none = t("x.rego", "coding", "low", "deny", false);
    none.domain = None;
    none.frameworks = vec![];
    let mut f = empty_filters();
    f.domain = vec!["coding".into()];
    assert!(apply_filters(vec![none], &f).is_empty());
    let mut f = empty_filters();
    f.framework = vec!["SOC2".into(), "HIPAA".into()];
    assert_eq!(apply_filters(fixtures(), &f).len(), 3);
    f.framework = vec!["SOC2".into()];
    assert!(apply_filters(fixtures(), &f).is_empty());
}

#[test]
fn filtering_again_changes_nothing() {
    let mut f = empty_filters();
    f.not_installed = true;
    f.tier = vec!["deny".into(), "review".into()];
    let once = apply_filters(fixtures(), &f);
    let names: Vec<String> = once.iter().map(|t| t.name.clone()).collect();
    let twice = apply_filters(once, &f);
    assert_eq!(twice.iter().map(|t| t.name.clone()).collect::<Vec<_>>(), names);
    assert_eq!(names, vec!["phi_egress.rego", "repo_scope.rego"]);
}

#[test]
fn contradicting_flags_are_refused_and_would_keep_nothing() {
    let mut args = list_args();
    assert!(contradiction(&args).is_none());
    args.installed_only = true;
    args.not_installed = true;
    let report = contradiction(&args).unwrap();
    assert_eq!(
        report.stderr,
        "error: --installed-only and --not-installed are mutually exclusive.\n"
    );
    assert_eq!(report.exit, ExitCode::Validation);
    assert!(apply_filters(fixtures(), &filters_of(&args)).is_empty());
    for catalog in [Ok(fixtures()), Err(answered(503))] {
        let refused = list(&args, catalog);
        assert_eq!(refused.report.stderr, report.stderr);
        assert_eq!(refused.report.exit, ExitCode::Validation);
        assert!(matches!(&refused.report.stdout, Printed::Text(t) if t.is_empty()));
        assert!(refused.rows.is_empty());
    }
}

#[test]
fn the_table_has_fixed_columns() {
    let mut rows = fixtures();
    rows[2].domain = None;
    rows[2].severity = None;
    rows[2].tier = None;
    assert_eq!(
        render_table(&rows),
        "NAME                             DOMAIN         SEVERITY   TIER     STATE\n\
         phi_egress.rego                  healthcare     high       deny     available\n\
         money_moves.rego                 finance        critical   mixed    installed\n\
         repo_scope.rego                  —              —          —        available\n"
    );
    assert_eq!(render_table(&vec![]), "(no templates match the current filters)\n");
}

#[test]
fn a_listing_filters_the_catalog() {
    let mut args = list_args();
    args.domain = vec!["finance".into()];
    let shown = list(&args, Ok(fixtures()));
    assert_eq!(shown.rows.len(), 1);
    assert_eq!(shown.places, vec![1]);
    assert_eq!(shown.report.exit, ExitCode::Success);
    match &shown.report.stdout {
        Printed::Text(text) => assert_eq!(*text, render_table(&shown.rows)),
        Printed::Json => panic!("JSON"),
    }
    args.json = true;
    assert!(matches!(list(&args, Ok(fixtures())).report.stdout, Printed::Json));
    let failed = list(&args, Err(answered(503)));
    assert_eq!(failed.report.stderr, "error: list templates: server 503: words\n");
    assert_eq!(failed.report.exit, ExitCode::Server);
    assert!(failed.rows.is_empty());
}

#[test]
fn places_point_into_the_catalog() {
    let mut f = empty_filters();
    f.not_installed = true;
    assert_eq!(kept_places(&fixtures(), &f), vec![0, 2]);
    assert_eq!(kept_places(&fixtures(), &empty_filters()), vec![0, 1, 2]);
    f.installed_only = true;
    assert!(kept_places(&fixtures(), &f).is_empty());
}

#[test]
fn an_installation_needs_a_reason() {
    for blank in ["", "  \t\n"] {
        let report = install_request(&install_args(blank)).unwrap_err();
        assert_eq!(report.stderr, "error: --reason must be non-empty.\n");
        assert_eq!(report.exit, ExitCode::Validation);
    }
    let request = install_request(&install_args(" audit ")).unwrap();
    assert_eq!(request.reason, " audit ");
    assert_eq!(request.actor_sub, "wardenctl");
    assert_eq!(request.actor_idp, "ci");
}

#[test]
fn installations_are_reported() {
    let done = Installed {
        name: "phi_egress.rego".into(),
        version: 3,
        body_sha256: "abc".into(),
    };
    let report = install_report("phi_egress.rego", &Ok(done));
    match &report.stdout {
        Printed::Text(text) => {
            assert_eq!(text, "installed phi_egress.rego (v3, sha256 abc)\n")
        }
        Printed::Json => panic!("JSON"),
    }
    let report = install_report("a\"b.rego", &Err(answered(404)));
    assert_eq!(report.stderr, "error: template \"a\\\"b.rego\" not found on engine: words\n");
    assert_eq!(report.exit, ExitCode::Validation);
    let report = install_report("a.rego", &Err(answered(409)));
    assert_eq!(report.stderr, "error: template \"a.rego\" already installed: words\n");
    assert_eq!(report.exit, ExitCode::Conflict);
    let report = install_report("a.rego", &Err(answered(403)));
    assert_eq!(report.stderr, "error: install a.rego: server 403: words\n");
    assert_eq!(report.exit, ExitCode::Auth);
    let report = install_report("a.rego", &Err(Failure { message: "refused".into(), answer: None }));
    assert_eq!(report.stderr, "error: install a.rego: refused\n");
    assert_eq!(report.exit, ExitCode::Server);
}

#[test]
fn a_policy_url_can_be_none() {
    let report = bad_policy_url("nope", "relative URL without a base");
    assert_eq!(report.stderr, "error: policy url nope: relative URL without a base\n");
    assert_eq!(report.exit, ExitCode::Validation);
}
