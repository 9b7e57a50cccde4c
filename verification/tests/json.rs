use warden_ctl::json::{indent, nest, write_array_lines, write_object, write_object_lines, Pair};

fn pair(name: &str, value: &str) -> Pair {
    Pair { name: name.into(), value: value.into() }
}

#[test]
fn objects_are_written_on_one_line() {
    assert_eq!(write_object(&vec![]), "{}");
    assert_eq!(write_object(&vec![pair("a", "1")]), "{\"a\":1}");
    assert_eq!(
        write_object(&vec![pair("a", "1"), pair("b\n", "[]"), pair("c", "null")]),
        "{\"a\":1,\"b\\n\":[],\"c\":null}"
    );
}

#[test]
fn objects_are_written_in_lines() {
    assert_eq!(write_object_lines(&vec![]), "{}");
    assert_eq!(
        write_object_lines(&vec![pair("a", "1"), pair("b", "2")]),
        "{\n  \"a\": 1,\n  \"b\": 2\n}"
    );
}

#[test]
fn names_are_escaped_as_the_json_crate_does() {
    for code in 0..0x250u32 {
        let c = char::from_u32(code).unwrap();
        let expected = serde_json::to_string(&c.to_string()).unwrap();
        assert_eq!(
            write_object(&vec![pair(&c.to_string(), "0")]),
            format!("{{{expected}:0}}")
        );
        let escaped = match c {
            '"' => "\\\"".to_string(),
            '\\' => "\\\\".to_string(),
            '\u{8}' => "\\b".to_string(),
            '\t' => "\\t".to_string(),
            '\n' => "\\n".to_string(),
            '\u{c}' => "\\f".to_string(),
            '\r' => "\\r".to_string(),
            c if code < 0x20 => format!("\\u{:04x}", c as u32),
            c => c.to_string(),
        };
        assert_eq!(expected, format!("\"{escaped}\""));
    }
}

#[test]
fn names_that_differ_are_written_differently() {
    let texts = ["", "n", "\n", "\\n", "\\\n", "u0001", "\u{1}", "\"", "\\\""];
    for a in texts {
        for b in texts {
            let same = write_object(&vec![pair(a, "0")]) == write_object(&vec![pair(b, "0")]);
            assert_eq!(same, a == b);
        }
    }
}

#[test]
fn arrays_and_nested_values_are_indented() {
    assert_eq!(write_array_lines(&vec![]), "[]");
    assert_eq!(
        write_array_lines(&vec!["1".into(), "{\n  \"a\": 2\n}".into()]),
        "[\n  1,\n  {\n    \"a\": 2\n  }\n]"
    );
    assert_eq!(indent("[\n  1\n]"), "[\n    1\n  ]");
    assert_eq!(nest(&vec![pair("a", "[\n  1\n]")])[0].value, "[\n    1\n  ]");
}
