use json_log_format::{EventData, JsonFormattingLayer, JsonValue, Level, SpanData, Type};

fn layer() -> JsonFormattingLayer {
    JsonFormattingLayer::new(String::from("test-app"), 42, String::from("host1"))
}

fn span(name: &str, fields: Vec<(String, JsonValue)>) -> SpanData {
    SpanData {
        name: String::from(name),
        level: Level::Info,
        target: String::from("web"),
        file: Some(String::from("src/x.rs")),
        line: Some(7),
        fields,
    }
}

fn event(fields: Vec<(String, JsonValue)>) -> EventData {
    EventData {
        level: Level::Info,
        target: String::from("web"),
        file: None,
        line: None,
        fields,
    }
}

fn parse(line: &str) -> serde_json::Value {
    assert!(line.ends_with('\n'));
    serde_json::from_str(line).expect("record must be valid JSON")
}

#[test]
fn span_begin_full_text() {
    let fields = vec![(String::from("k"), JsonValue::Str(String::from("v")))];
    let out = layer().render_span_record("2024-01-02 03:04:05", &span("req", fields), &Type::EnterSpan);
    assert_eq!(
        out,
        "{\"time\":\"2024-01-02 03:04:05\",\"name\":\"test-app\",\"host\":\"host1\",\"message\":\"[REQ - START]\",\"level\":\"INFO\",\"pid\":42,\"target\":\"web\",\"line\":7,\"file\":\"src/x.rs\",\"k\":\"v\"}\n"
    );
}

#[test]
fn span_begin_message() {
    let out = layer().render_span_record("2024-01-02 03:04:05", &span("req", vec![]), &Type::EnterSpan);
    let doc = parse(&out);
    assert_eq!(doc["message"], serde_json::Value::String(String::from("[REQ - START]")));
}

#[test]
fn span_end_message() {
    let out = layer().render_span_record("2024-01-02 03:04:05", &span("req", vec![]), &Type::ExitSpan);
    let doc = parse(&out);
    assert_eq!(doc["message"], serde_json::Value::String(String::from("[REQ - END]")));
}

#[test]
fn event_without_context_uses_target() {
    let fields = vec![(String::from("k"), JsonValue::U64(1))];
    let out = layer().render_event_record("2024-01-02 03:04:05", &event(fields), None);
    let doc = parse(&out);
    assert_eq!(doc["message"], serde_json::Value::String(String::from("web")));
}

#[test]
fn event_in_context_prefixes_message() {
    let fields = vec![(String::from("message"), JsonValue::Str(String::from("hello")))];
    let ctx = span("req", vec![]);
    let out = layer().render_event_record("2024-01-02 03:04:05", &event(fields), Some(&ctx));
    let doc = parse(&out);
    assert_eq!(doc["message"], serde_json::Value::String(String::from("[REQ - EVENT] hello")));
}

#[test]
fn non_string_message_field_falls_back_and_is_dropped() {
    let fields = vec![(String::from("message"), JsonValue::I64(5))];
    let out = layer().render_event_record("2024-01-02 03:04:05", &event(fields), None);
    let doc = parse(&out);
    assert_eq!(doc["message"], serde_json::Value::String(String::from("web")));
    // the non-string `message` field is consumed, never re-emitted as 5
    assert!(!out.contains(":5"));
}

#[test]
fn fixed_field_order_and_caller_fields_after() {
    let fields = vec![
        (String::from("zeta"), JsonValue::U64(1)),
        (String::from("alpha"), JsonValue::U64(2)),
    ];
    let out = layer().render_span_record("2024-01-02 03:04:05", &span("req", fields), &Type::EnterSpan);
    let keys = ["\"time\"", "\"name\"", "\"host\"", "\"message\"", "\"level\"", "\"pid\"", "\"target\"", "\"line\"", "\"file\"", "\"zeta\"", "\"alpha\""];
    let mut last: usize = 0;
    for key in keys {
        let pos = out.find(key).unwrap_or_else(|| panic!("missing {}", key));
        assert!(pos >= last, "{} out of order", key);
        last = pos;
    }
}

#[test]
fn event_fields_before_context_fields_in_insertion_order() {
    let ctx = span("req", vec![(String::from("ctx_k"), JsonValue::Bool(true))]);
    let fields = vec![
        (String::from("b"), JsonValue::U64(1)),
        (String::from("a"), JsonValue::U64(2)),
    ];
    let out = layer().render_event_record("2024-01-02 03:04:05", &event(fields), Some(&ctx));
    let b = out.find("\"b\"").unwrap();
    let a = out.find("\"a\"").unwrap();
    let c = out.find("\"ctx_k\"").unwrap();
    assert!(b < a && a < c);
}

#[test]
fn caller_field_shadowing_fixed_key_wins_on_decode() {
    let fields = vec![(String::from("pid"), JsonValue::U64(99))];
    let out = layer().render_span_record("2024-01-02 03:04:05", &span("req", fields), &Type::EnterSpan);
    // the key appears twice in the raw object, not deduplicated
    assert_eq!(out.matches("\"pid\"").count(), 2);
    let doc = parse(&out);
    assert_eq!(doc["pid"], serde_json::Value::Number(serde_json::Number::from(99u64)));
}

#[test]
fn string_values_are_escaped_and_round_trip() {
    let raw = "a\"b\nc\\d";
    let fields = vec![(String::from("k"), JsonValue::Str(String::from(raw)))];
    let out = layer().render_event_record("2024-01-02 03:04:05", &event(fields), None);
    // one line despite the embedded newline in the value
    assert_eq!(out.matches('\n').count(), 1);
    let doc = parse(&out);
    assert_eq!(doc["k"], serde_json::Value::String(String::from(raw)));
}

#[test]
fn value_variants_render_as_json_types() {
    let fields = vec![
        (String::from("n"), JsonValue::Null),
        (String::from("t"), JsonValue::Bool(true)),
        (String::from("f"), JsonValue::Bool(false)),
        (String::from("imin"), JsonValue::I64(i64::MIN)),
        (String::from("umax"), JsonValue::U64(u64::MAX)),
        (String::from("pi"), JsonValue::Num(String::from("3.25"))),
    ];
    let out = layer().render_event_record("2024-01-02 03:04:05", &event(fields), None);
    let doc = parse(&out);
    assert_eq!(doc["n"], serde_json::Value::Null);
    assert_eq!(doc["t"], serde_json::Value::Bool(true));
    assert_eq!(doc["f"], serde_json::Value::Bool(false));
    assert_eq!(doc["imin"], serde_json::Value::Number(serde_json::Number::from(i64::MIN)));
    assert_eq!(doc["umax"], serde_json::Value::Number(serde_json::Number::from(u64::MAX)));
    assert_eq!(doc["pi"], serde_json::Value::Number(serde_json::Number::from_f64(3.25).unwrap()));
}

#[test]
fn null_line_and_file_render_as_json_null() {
    let out = layer().render_event_record("2024-01-02 03:04:05", &event(vec![]), None);
    let doc = parse(&out);
    assert_eq!(doc["line"], serde_json::Value::Null);
    assert_eq!(doc["file"], serde_json::Value::Null);
}

#[test]
fn empty_span_name_still_marks_context() {
    let out = layer().render_span_record("2024-01-02 03:04:05", &span("", vec![]), &Type::EnterSpan);
    let doc = parse(&out);
    assert_eq!(doc["message"], serde_json::Value::String(String::from("[ - START]")));
}

#[test]
fn successive_records_are_independent() {
    let fmt = layer();
    let first = fmt.render_span_record("2024-01-02 03:04:05", &span("a", vec![]), &Type::EnterSpan);
    let bad = fmt.render_event_record(
        "2024-01-02 03:04:05",
        &event(vec![(String::from("x"), JsonValue::Str(String::from("\u{0}weird\n")))]),
        None,
    );
    let third = fmt.render_span_record("2024-01-02 03:04:05", &span("a", vec![]), &Type::ExitSpan);
    parse(&first);
    parse(&bad);
    let doc = parse(&third);
    assert_eq!(doc["message"], serde_json::Value::String(String::from("[A - END]")));
}

#[test]
fn serialize_span_uses_live_clock_format() {
    let fmt = layer();
    let out = fmt.serialize_span(&span("req", vec![]), &Type::EnterSpan);
    assert_eq!(out.matches('\n').count(), 1);
    let doc = parse(&out);
    let time = doc["time"].as_str().expect("time is a string");
    assert_eq!(time.len(), 19);
    let bytes = time.as_bytes();
    for (i, b) in bytes.iter().enumerate() {
        match i {
            4 | 7 => assert_eq!(*b, b'-'),
            10 => assert_eq!(*b, b' '),
            13 | 16 => assert_eq!(*b, b':'),
            _ => assert!(b.is_ascii_digit(), "byte {} of {}", i, time),
        }
    }
}

#[test]
fn thousand_records_stay_line_separated() {
    let fmt = layer();
    let mut sink = String::new();
    for i in 0..1000u64 {
        let fields = vec![(String::from("i"), JsonValue::U64(i))];
        sink.push_str(&fmt.render_event_record("2024-01-02 03:04:05", &event(fields), None));
    }
    let lines: Vec<&str> = sink.lines().collect();
    assert_eq!(lines.len(), 1000);
    for (i, line) in lines.iter().enumerate() {
        let doc: serde_json::Value = serde_json::from_str(line).expect("every line parses");
        assert_eq!(doc["i"], serde_json::Value::Number(serde_json::Number::from(i as u64)));
    }
}

#[test]
fn serialize_event_reports_identity() {
    let fmt = JsonFormattingLayer::with_default_fields(String::from("svc"), 7, String::from("box"));
    let out = fmt.serialize_event(&event(vec![]), None);
    let doc = parse(&out);
    assert_eq!(doc["name"], serde_json::Value::String(String::from("svc")));
    assert_eq!(doc["host"], serde_json::Value::String(String::from("box")));
    assert_eq!(doc["pid"], serde_json::Value::Number(serde_json::Number::from(7u32)));
    assert_eq!(doc["level"], serde_json::Value::String(String::from("INFO")));
    assert_eq!(doc["target"], serde_json::Value::String(String::from("web")));
}
