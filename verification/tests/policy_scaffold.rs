use std::path::PathBuf;
use warden_ctl::policy_scaffold::{
    default_path, is_safe_slug, overwrite_refusal, render_template, scaffold, split_csv,
    write_report, ScaffoldArgs, ScaffoldStep, WriteOutcome,
};
use warden_ctl::report::{ExitCode, Printed, Report};

fn args(tier: &str) -> ScaffoldArgs {
    ScaffoldArgs {
        name: "phi_egress_starter".into(),
        domain: "healthcare".into(),
        tier: tier.into(),
        severity: "high".into(),
        frameworks: "HIPAA,HITRUST".into(),
        tags: "phi,egress".into(),
        tool_surface: "phi_export,send_email".into(),
        summary: "Deny PHI exports.".into(),
        output: None,
        force: false,
        stdout: false,
    }
}

#[test]
fn output_carries_full_frontmatter_block() {
    let a = args("deny");
    let body = render_template(&a, &split_csv(&a.tool_surface));
    assert!(body.contains("# Template:     phi_egress_starter"));
    assert!(body.contains("# Domain:       healthcare"));
    assert!(body.contains("# Severity:     high"));
    assert!(body.contains("# Frameworks:   HIPAA, HITRUST"));
    assert!(body.contains("# Tags:         phi, egress"));
    assert!(body.contains("# Tier:         deny"));
    assert!(body.contains("# Tool surface: phi_export, send_email"));
    assert!(body.contains("# Summary:      Deny PHI exports."));
}

#[test]
fn deny_tier_emits_only_deny_block() {
    let a = args("deny");
    let body = render_template(&a, &split_csv(&a.tool_surface));
    assert!(body.contains("deny contains msg if"));
    assert!(!body.contains("review contains msg if"));
}

#[test]
fn review_tier_emits_only_review_block() {
    let a = args("review");
    let body = render_template(&a, &split_csv(&a.tool_surface));
    assert!(!body.contains("deny contains msg if"));
    assert!(body.contains("review contains msg if"));
}

#[test]
fn mixed_tier_emits_both_blocks() {
    let a = args("mixed");
    let body = render_template(&a, &split_csv(&a.tool_surface));
    assert!(body.contains("deny contains msg if"));
    assert!(body.contains("review contains msg if"));
}

fn stopped(a: &ScaffoldArgs) -> Report {
    match scaffold(a) {
        ScaffoldStep::Stop(report) => report,
        ScaffoldStep::Write(body) => panic!("{body}"),
    }
}

fn to_write(a: &ScaffoldArgs) -> String {
    match scaffold(a) {
        ScaffoldStep::Write(body) => body,
        ScaffoldStep::Stop(report) => panic!("{report:?}"),
    }
}

#[test]
fn missing_tool_surface_returns_validation_error() {
    let mut a = args("deny");
    a.tool_surface.clear();
    a.stdout = true;
    let report = stopped(&a);
    assert_eq!(report.exit, ExitCode::Validation);
    assert_eq!(
        report.stderr,
        "error: --tool-surface must list at least one MCP tool name.\n"
    );
}

#[test]
fn unsafe_slug_returns_validation_error() {
    let mut a = args("deny");
    a.name = "phi/../etc".into();
    a.stdout = true;
    let report = stopped(&a);
    assert_eq!(report.exit, ExitCode::Validation);
    assert_eq!(
        report.stderr,
        "error: --name must be lower-case alphanumeric + underscore (got \"phi/../etc\").\n"
    );
}

#[test]
fn a_bad_name_is_quoted_with_escapes() {
    let mut a = args("deny");
    a.name = "a\"b\n".into();
    assert!(stopped(&a).stderr.contains("(got \"a\\\"b\\n\")."));
}

#[test]
fn writes_file_at_explicit_output_path() {
    let out = "custom.rego";
    let mut a = args("mixed");
    a.output = Some(PathBuf::from(out));
    let body = to_write(&a);
    assert!(overwrite_refusal(out, false, a.force).is_none());
    let report = write_report(out, &body, &WriteOutcome::Written);
    assert_eq!(report.exit, ExitCode::Success);
    assert_eq!(
        report.stderr,
        format!("wrote custom.rego ({} lines)\n", body.lines().count())
    );
    assert!(body.contains("phi_egress_starter"));
    assert!(body.contains("gated_tools"));
}

#[test]
fn refuses_to_overwrite_without_force() {
    let a = args("deny");
    let report = overwrite_refusal("custom.rego", true, a.force).unwrap();
    assert_eq!(report.exit, ExitCode::Conflict);
    assert_eq!(
        report.stderr,
        "error: custom.rego already exists. \
         Pass --force to overwrite, or pick a different --name.\n"
    );
}

#[test]
fn force_overwrites_existing_file() {
    let mut a = args("deny");
    a.force = true;
    assert!(overwrite_refusal("custom.rego", true, a.force).is_none());
    let body = to_write(&a);
    let report = write_report("custom.rego", &body, &WriteOutcome::Written);
    assert_eq!(report.exit, ExitCode::Success);
    assert!(body.contains("phi_egress_starter"));
    assert!(!body.contains("pre-existing"));
}

#[test]
fn default_output_path_under_policies_templates() {
    let a = args("deny");
    let default = a.output.clone().unwrap_or_else(|| PathBuf::from(default_path(&a.name)));
    assert_eq!(default, PathBuf::from("policies/templates/phi_egress_starter.rego"));
}

#[test]
fn the_template_can_go_to_standard_output() {
    let mut a = args("review");
    a.stdout = true;
    let report = stopped(&a);
    assert_eq!(report.exit, ExitCode::Success);
    match report.stdout {
        Printed::Text(text) => {
            assert_eq!(text, render_template(&a, &split_csv(&a.tool_surface)))
        }
        Printed::Json => panic!("JSON"),
    }
}

#[test]
fn writing_can_fail_twice() {
    let folder = WriteOutcome::FolderFailed { parent: "p".into(), message: "denied".into() };
    let report = write_report("p/x.rego", "b", &folder);
    assert_eq!(report.stderr, "error: create p: denied\n");
    assert_eq!(report.exit, ExitCode::Server);
    let file = WriteOutcome::FileFailed { message: "full".into() };
    let report = write_report("p/x.rego", "b", &file);
    assert_eq!(report.stderr, "error: write p/x.rego: full\n");
    assert_eq!(report.exit, ExitCode::Server);
}

#[test]
fn lists_between_commas() {
    assert_eq!(split_csv(" a, b ,,\tc "), vec!["a", "b", "c"]);
    assert!(split_csv(" , ,").is_empty());
    let items = vec!["x y".to_string(), "z".into()];
    assert_eq!(split_csv(&items.join(", ")), items);
}

#[test]
fn slugs_stay_in_their_folder() {
    for good in ["a", "a_1", "0", "_"] {
        assert!(is_safe_slug(good));
    }
    for bad in ["", "A", "a/b", "..", "a b", "é", "a.rego", "a-b"] {
        assert!(!is_safe_slug(bad));
    }
}
