use warden_ctl::report::{fail, unserializable, Answer, ExitCode, Failure};

#[test]
fn exit_codes_follow_the_table() {
    let codes = [
        (ExitCode::Success, 0),
        (ExitCode::Validation, 2),
        (ExitCode::Auth, 3),
        (ExitCode::Conflict, 4),
        (ExitCode::Server, 5),
    ];
    for (code, number) in codes {
        assert_eq!(code.code(), number);
    }
}

#[test]
fn statuses_map_to_exit_codes() {
    for status in [400, 404, 422] {
        assert_eq!(ExitCode::from_status(status), ExitCode::Validation);
    }
    for status in [401, 403] {
        assert_eq!(ExitCode::from_status(status), ExitCode::Auth);
    }
    assert_eq!(ExitCode::from_status(409), ExitCode::Conflict);
    for status in [500, 502, 599] {
        assert_eq!(ExitCode::from_status(status), ExitCode::Server);
    }
}

#[test]
fn a_failure_without_an_answer_is_a_server_error() {
    let failure = Failure { message: "decode: eof".into(), answer: None };
    assert_eq!(ExitCode::from_warden_error(&failure), ExitCode::Server);
    let report = fail(&failure);
    assert_eq!(report.stderr, "error: decode: eof\n");
    assert_ne!(report.exit.code(), 0);
}

#[test]
fn a_failure_with_an_answer_goes_by_its_status() {
    let failure = Failure {
        message: "server 401: expired".into(),
        answer: Some(Answer { status: 401, body: "expired".into() }),
    };
    assert_eq!(fail(&failure).exit, ExitCode::Auth);
}

#[test]
fn json_that_cannot_be_written_is_a_server_error() {
    let report = unserializable("key must be a string");
    assert_eq!(report.stderr, "error: serialize: key must be a string\n");
    assert_eq!(report.exit, ExitCode::Server);
}
