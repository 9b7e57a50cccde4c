use warden_ctl::json::{Frame, Member};
use warden_ctl::mcp_bridge::{
    after_body, after_post, after_write, endpoint, greeting, identity_pem, is_notification,
    no_client, reached, refuse, take_frame, take_input, ClientHint, Input, Step,
};
use warden_ctl::report::{ExitCode, Printed, Report};

fn frame(line: &str) -> Frame {
    match take_input(&Input::Line(line.into())) {
        Step::Forward { frame } => frame,
        other => panic!("{other:?}"),
    }
}

fn stopped(step: Step) -> Report {
    match step {
        Step::Stop { report } => report,
        other => panic!("{other:?}"),
    }
}

fn logged(step: Step) -> String {
    match step {
        Step::Next { log } => log,
        other => panic!("{other:?}"),
    }
}

fn written(step: Step) -> (String, String, bool) {
    match step {
        Step::Write { line, log, vital } => (line, log, vital),
        other => panic!("{other:?}"),
    }
}

#[test]
fn hints_are_named_in_kebab_case() {
    assert_eq!(ClientHint::Cursor.as_str(), "cursor");
    assert_eq!(ClientHint::Cline.as_str(), "cline");
    assert_eq!(ClientHint::Continue.as_str(), "continue");
    assert_eq!(ClientHint::Codex.as_str(), "codex");
    assert_eq!(ClientHint::Generic.as_str(), "generic");
    let two = ClientHint::ClaudeCode.as_str();
    assert_eq!(two.split('-').count(), 2);
    assert_eq!(two.replace('-', ""), "ClaudeCode".to_lowercase());
    assert_eq!(two.find('-'), Some(6));
}

#[test]
fn a_hint_is_logged() {
    assert_eq!(
        greeting(Some(ClientHint::Generic)).as_deref(),
        Some("mcp-bridge: client-hint=generic\n")
    );
    assert_eq!(greeting(None), None);
}

#[test]
fn certificate_and_key_make_one_identity() {
    assert_eq!(identity_pem(&b"CERT".to_vec(), &b"KEY".to_vec()), b"CERT\nKEY".to_vec());
}

#[test]
fn frames_are_posted_to_mcp() {
    assert_eq!(endpoint("https://localhost:19443").unwrap(), "https://localhost:19443/mcp");
    assert_eq!(endpoint("https://h/a/b?q").unwrap(), "https://h/mcp");
    let report = endpoint("localhost").unwrap_err();
    assert_eq!(report.stderr, "mcp-bridge: parse url: relative URL without a base\n");
    assert_eq!(report.exit, ExitCode::Validation);
    let report = reached(Err("e".into())).unwrap_err();
    assert_eq!(report.stderr, "mcp-bridge: parse url: e\n");
    let report = no_client("no such file");
    assert_eq!(report.stderr, "mcp-bridge: build client: no such file\n");
    assert_eq!(report.exit, ExitCode::Validation);
}

#[test]
fn the_end_of_input_is_a_clean_end() {
    let report = stopped(take_input(&Input::End));
    assert_eq!(report.exit, ExitCode::Success);
    assert_eq!(report.stderr, "");
    assert!(matches!(report.stdout, Printed::Text(t) if t.is_empty()));
    let report = stopped(take_input(&Input::Broken("not UTF-8".into())));
    assert_eq!(report.stderr, "mcp-bridge: stdin read: not UTF-8\n");
    assert_eq!(report.exit, ExitCode::Server);
}

#[test]
fn blank_lines_and_bad_frames_are_passed_over() {
    assert_eq!(logged(take_input(&Input::Line(" \t\r\n".into()))), "");
    let words = serde_json::from_str::<serde_json::Value>("{\"id\":").unwrap_err().to_string();
    assert_eq!(
        logged(take_input(&Input::Line("{\"id\":\n".into()))),
        format!("mcp-bridge: parse jsonrpc frame: {words}\n")
    );
    assert_eq!(
        logged(take_frame(Err("eof".into()))),
        "mcp-bridge: parse jsonrpc frame: eof\n"
    );
}

#[test]
fn a_frame_is_read_with_its_members() {
    let f = frame(" {\"method\": \"tools/list\", \"id\": 2, \"jsonrpc\" : \"2.0\"}\n");
    assert_eq!(f.json, "{\"id\":2,\"jsonrpc\":\"2.0\",\"method\":\"tools/list\"}");
    let method = f.member("method").unwrap();
    assert_eq!(method.json, "\"tools/list\"");
    assert_eq!(method.string.as_deref(), Some("tools/list"));
    assert_eq!(f.member("id").unwrap().json, "2");
    assert_eq!(f.member("id").unwrap().string, None);
    assert!(f.member("params").is_none());
    assert!(frame("[1, 2]").members.is_empty());
}

#[test]
fn notifications_have_a_method_or_no_id() {
    assert!(is_notification(&frame("{\"method\":\"notifications/initialized\"}")));
    assert!(is_notification(&frame("{\"id\":1,\"method\":\"notifications/x\"}")));
    assert!(is_notification(&frame("{\"method\":\"tools/list\"}")));
    assert!(is_notification(&frame("[]")));
    assert!(!is_notification(&frame("{\"id\":1,\"method\":\"tools/list\"}")));
    assert!(!is_notification(&frame("{\"id\":null}")));
    assert!(!is_notification(&frame("{\"id\":1,\"method\":\"notifications\"}")));
    assert!(!is_notification(&frame("{\"id\":1,\"method\":[\"notifications/x\"]}")));
}

#[test]
fn notifications_draw_no_response() {
    let note = frame("{\"jsonrpc\":\"2.0\",\"method\":\"notifications/initialized\"}");
    assert_eq!(logged(after_post(&note, &None)), "");
    let request = frame("{\"jsonrpc\":\"2.0\",\"id\":2,\"method\":\"tools/list\"}");
    assert!(matches!(after_post(&request, &None), Step::ReadBody));
    assert_eq!(
        logged(after_post(&request, &Some("refused".into()))),
        "mcp-bridge: post upstream: refused\n"
    );
}

#[test]
fn a_successful_answer_is_passed_on() {
    let request = frame("{\"id\":2,\"method\":\"tools/list\"}");
    for status in [200, 202, 299] {
        let (line, log, vital) = written(after_body(&request, status, &Ok("{ \"x\": 1}".into())));
        assert_eq!(line, "{ \"x\": 1}\n");
        assert_eq!(log, "");
        assert!(vital);
    }
    assert_eq!(
        logged(after_body(&request, 200, &Err("reset".into()))),
        "mcp-bridge: read response body: reset\n"
    );
}

#[test]
fn a_refusal_carries_the_id_and_the_words() {
    let request = frame("{\"id\":\"a b\",\"method\":\"tools/call\"}");
    let body = "denied:\n\"phi\" \u{1} é";
    let (line, log, vital) = written(after_body(&request, 403, &Ok(body.into())));
    assert!(!vital);
    assert_eq!(log, format!("mcp-bridge: upstream 403 Forbidden: {body}\n"));
    assert_eq!(
        line,
        "{\"error\":{\"code\":-32000,\"data\":\"denied:\\n\\\"phi\\\" \\u0001 é\",\
         \"message\":\"warden proxy 403 Forbidden\"},\"id\":\"a b\",\"jsonrpc\":\"2.0\"}\n"
    );
    assert_eq!(line.matches('\n').count(), 1);
    let read: serde_json::Value = serde_json::from_str(&line).unwrap();
    assert_eq!(read["error"]["data"].as_str(), Some(body));
    assert_eq!(read["error"]["code"].as_i64(), Some(-32000));
    assert_eq!(read["id"].as_str(), Some("a b"));
    // Written the way the JSON crate writes it.
    assert_eq!(format!("{read}\n"), line);
}

#[test]
fn other_answers_are_refusals_too() {
    let request = frame("{\"id\":7}");
    for (status, words) in [(100, "100 Continue"), (302, "302 Found"), (502, "502 Bad Gateway")] {
        let (line, _, _) = written(after_body(&request, status, &Ok(String::new())));
        assert!(line.contains(&format!("\"message\":\"warden proxy {words}\"")));
        assert!(line.contains("\"id\":7"));
    }
    let none = Frame { json: "[]".into(), members: vec![] };
    assert_eq!(
        logged(refuse(&none, "500 Internal Server Error", "x")),
        "mcp-bridge: upstream 500 Internal Server Error: x\n"
    );
}

#[test]
fn the_first_member_of_a_name_counts() {
    let member = |name: &str, json: &str| Member {
        name: name.into(),
        json: json.into(),
        string: None,
    };
    let f = Frame {
        json: "{}".into(),
        members: vec![member("a", "0"), member("id", "1"), member("id", "2")],
    };
    assert_eq!(f.member("id").unwrap().json, "1");
}

#[test]
fn only_a_lost_reply_ends_the_bridge() {
    assert_eq!(logged(after_write(true, &None)), "");
    assert_eq!(logged(after_write(false, &None)), "");
    assert_eq!(logged(after_write(false, &Some("broken pipe".into()))), "");
    let report = stopped(after_write(true, &Some("broken pipe".into())));
    assert_eq!(report.stderr, "mcp-bridge: write stdout: broken pipe\n");
    assert_eq!(report.exit, ExitCode::Server);
}
