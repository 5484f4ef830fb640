use json_log_format::clock::{format_time, TimeParts};
use json_log_format::digits::{i64_to_dec, u64_to_dec};
use json_log_format::message::{format_event_message, format_span_context};
use json_log_format::value::render_value;
use json_log_format::{Config, JsonValue, Level, Type};

#[test]
fn decimal_rendering_exact() {
    assert_eq!(u64_to_dec(0), "0");
    assert_eq!(u64_to_dec(10), "10");
    assert_eq!(u64_to_dec(90210), "90210");
    assert_eq!(u64_to_dec(u64::MAX), "18446744073709551615");
    assert_eq!(i64_to_dec(0), "0");
    assert_eq!(i64_to_dec(-7), "-7");
    assert_eq!(i64_to_dec(i64::MIN), "-9223372036854775808");
    assert_eq!(i64_to_dec(i64::MAX), "9223372036854775807");
}

#[test]
fn time_formatting_pads_every_part() {
    let t = TimeParts { year: 987, month: 1, day: 5, hour: 7, minute: 8, second: 9 };
    assert_eq!(format_time(&t), "0987-01-05 07:08:09");
    let t2 = TimeParts { year: 2024, month: 12, day: 31, hour: 23, minute: 59, second: 58 };
    assert_eq!(format_time(&t2), "2024-12-31 23:59:58");
}

#[test]
fn level_renders_upper_case_names() {
    assert_eq!(Level::Trace.render(), "TRACE");
    assert_eq!(Level::Debug.render(), "DEBUG");
    assert_eq!(Level::Info.render(), "INFO");
    assert_eq!(Level::Warn.render(), "WARN");
    assert_eq!(Level::Error.render(), "ERROR");
}

#[test]
fn type_labels() {
    assert_eq!(Type::EnterSpan.label(), "START");
    assert_eq!(Type::ExitSpan.label(), "END");
    assert_eq!(Type::Event.label(), "EVENT");
}

#[test]
fn span_context_upper_cases_name() {
    assert_eq!(format_span_context("req", &Type::EnterSpan), "[REQ - START]");
    assert_eq!(format_span_context("mixedCase", &Type::Event), "[MIXEDCASE - EVENT]");
}

#[test]
fn event_message_resolution() {
    let no_fields: Vec<(String, JsonValue)> = vec![];
    assert_eq!(format_event_message(None, &no_fields, "my_target"), "my_target");

    let msg = vec![(String::from("message"), JsonValue::Str(String::from("hi")))];
    assert_eq!(format_event_message(None, &msg, "my_target"), "hi");

    let ctx = String::from("job");
    let msg2 = vec![(String::from("message"), JsonValue::Str(String::from("hi")))];
    assert_eq!(format_event_message(Some(&ctx), &msg2, "my_target"), "[JOB - EVENT] hi");

    let non_string = vec![(String::from("message"), JsonValue::Bool(true))];
    assert_eq!(format_event_message(None, &non_string, "my_target"), "my_target");
}

#[test]
fn value_rendering_exact() {
    assert_eq!(render_value(&JsonValue::Null), "null");
    assert_eq!(render_value(&JsonValue::Bool(true)), "true");
    assert_eq!(render_value(&JsonValue::Bool(false)), "false");
    assert_eq!(render_value(&JsonValue::I64(-12)), "-12");
    assert_eq!(render_value(&JsonValue::U64(8)), "8");
    assert_eq!(render_value(&JsonValue::Num(String::from("2.5"))), "2.5");
    assert_eq!(render_value(&JsonValue::Str(String::from("a\"b"))), "\"a\\\"b\"");
}

#[test]
fn config_carries_offset() {
    let c = Config { offset: -5 };
    assert_eq!(c.offset, -5);
}
