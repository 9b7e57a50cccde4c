use warden_ctl::config::{
    resolve_identity_url, resolve_ledger_url, resolve_policy_url, resolve_tenant,
};
use warden_ctl::report::ExitCode;

fn some(s: &str) -> Option<String> {
    Some(s.to_string())
}

#[test]
fn resolve_policy_url_flag_wins() {
    let flag = resolve_policy_url(&some("http://flag.example.test"), &None);
    assert_eq!(flag, "http://flag.example.test");
    let flag = resolve_policy_url(&some("http://flag.example.test"), &some("http://env"));
    assert_eq!(flag, "http://flag.example.test");
}

#[test]
fn the_environment_outranks_the_default() {
    assert_eq!(resolve_policy_url(&None, &some("http://env")), "http://env");
    assert_eq!(resolve_policy_url(&None, &None), "http://localhost:8082");
    assert_eq!(resolve_ledger_url(&None, &some("http://env")), "http://env");
    assert_eq!(resolve_ledger_url(&None, &None), "http://localhost:8083");
}

#[test]
fn the_identity_service_is_found_in_four_places() {
    let at = |f: Option<String>, e: Option<String>, c: Option<String>| {
        resolve_identity_url(&f, &e, &c)
    };
    assert_eq!(at(some("f"), some("e"), some("c")), "f");
    assert_eq!(at(None, some("e"), some("c")), "e");
    assert_eq!(at(None, None, some("c")), "c");
    assert_eq!(at(None, None, None), "http://localhost:8086");
}

#[test]
fn a_missing_tenant_is_invalid() {
    assert_eq!(resolve_tenant(&some("f"), &some("e"), &some("c")), Ok("f".to_string()));
    assert_eq!(resolve_tenant(&None, &some("e"), &some("c")), Ok("e".to_string()));
    assert_eq!(resolve_tenant(&None, &None, &some("c")), Ok("c".to_string()));
    assert_eq!(resolve_tenant(&None, &None, &None), Err(ExitCode::Validation));
}
