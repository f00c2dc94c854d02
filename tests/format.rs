use json_pretty::level::LogLevel;
use json_pretty::paint::{paint, Paint};
use json_pretty::record::{format_extras, format_level, Field, FieldValue, LogRecord};
use json_pretty::sources::process_line;
use json_pretty::text::indent;

fn text(key: &str, value: &str) -> Field {
    Field { key: key.to_string(), value: FieldValue::Text(value.to_string()) }
}

fn json(key: &str, value: &serde_json::Value) -> Field {
    Field { key: key.to_string(), value: FieldValue::Json(serde_json::to_string_pretty(value).unwrap()) }
}

fn record(level: &str, extras: Vec<Field>) -> LogRecord {
    LogRecord::new("2024-01-01T00:00:00Z".to_string(), level, "hello".to_string(), extras).unwrap()
}

#[test]
fn end_to_end_short_field() {
    let r = record("info", vec![text("user", "bob")]);
    let out = process_line("", Ok(r), LogLevel::TRACE, false);
    assert_eq!(out, "[2024-01-01T00:00:00Z] INFO: hello (user=bob)\n");
}

#[test]
fn end_to_end_filtered_out() {
    let r = record("info", vec![text("user", "bob")]);
    assert_eq!(process_line("", Ok(r), LogLevel::ERROR, false), "");
}

#[test]
fn below_threshold_prints_nothing() {
    let r = record("debug", vec![]);
    assert_eq!(process_line("", Ok(r), LogLevel::INFO, false), "");
    let r = record("fatal", vec![]);
    assert_eq!(process_line("", Ok(r), LogLevel::FATAL, false), "[2024-01-01T00:00:00Z] FATAL: hello\n");
}

#[test]
fn end_to_end_object_field() {
    let value = serde_json::from_str::<serde_json::Value>(r#"{"a":1,"b":2}"#).unwrap();
    let r = record("info", vec![json("extra", &value)]);
    let out = process_line("", Ok(r), LogLevel::TRACE, false);
    assert_eq!(
        out,
        "[2024-01-01T00:00:00Z] INFO: hello\n    extra: {\n      \"a\": 1,\n      \"b\": 2\n    }\n"
    );
}

#[test]
fn malformed_line_is_echoed_with_error() {
    let out = process_line("not json", Err("expected ident at line 1 column 2".to_string()), LogLevel::TRACE, false);
    assert_eq!(out, "not json expected ident at line 1 column 2\n");
    assert_eq!(out.matches('\n').count(), 1);
}

#[test]
fn strings_with_spaces_or_empty_are_quoted() {
    let out = format_extras(&vec![text("a", "x y"), text("b", ""), text("c", "plain")], false);
    assert_eq!(out, " (a=\"x y\",b=\"\",c=plain)\n");
}

#[test]
fn other_values_are_inline_when_short() {
    let out = format_extras(
        &vec![
            json("n", &serde_json::Value::from(42)),
            json("ok", &serde_json::Value::Bool(true)),
            json("z", &serde_json::Value::Null),
            json("e", &serde_json::Value::Array(vec![])),
        ],
        false,
    );
    assert_eq!(out, " (n=42,ok=true,z=null,e=[])\n");
}

#[test]
fn long_string_goes_to_detail_block() {
    let long = "x".repeat(51);
    let out = format_extras(&vec![text("msg", &long), text("k", "v")], false);
    assert_eq!(out, format!(" (k=v)\n    msg: {long}\n"));
    let fifty = "y".repeat(50);
    let out = format_extras(&vec![text("msg", &fifty)], false);
    assert_eq!(out, format!(" (msg={fifty})\n"));
}

#[test]
fn multiline_string_goes_to_detail_block() {
    let out = format_extras(&vec![text("trace", "line one\nline two")], false);
    assert_eq!(out, "\n    trace: line one\n    line two\n");
}

#[test]
fn quoting_can_make_a_string_long() {
    let s = format!("{} {}", "a".repeat(24), "b".repeat(24));
    assert_eq!(s.chars().count(), 49);
    let out = format_extras(&vec![text("s", &s)], false);
    assert_eq!(out, format!("\n    s: {s}\n"));
}

#[test]
fn hidden_fields_never_shown() {
    let long = "z".repeat(80);
    let fields = vec![
        text("pid", "1"),
        text("host", "box"),
        text("file", "main.rs"),
        text("line", &long),
        text("target", "a b"),
        text("name", "multi\nline"),
    ];
    assert_eq!(format_extras(&fields, false), "\n");
}

#[test]
fn no_extras_at_all() {
    assert_eq!(format_extras(&vec![], false), "\n");
}

#[test]
fn only_short_extras() {
    assert_eq!(format_extras(&vec![text("a", "1"), text("b", "2")], false), " (a=1,b=2)\n");
}

#[test]
fn only_long_extras_are_separated() {
    let out = format_extras(&vec![text("a", "1\n2"), text("b", "3\n4")], false);
    assert_eq!(out, "\n    a: 1\n    2\n    --\n    b: 3\n    4\n");
}

#[test]
fn short_and_long_extras() {
    let out = format_extras(&vec![text("a", "1\n2"), text("b", "x")], false);
    assert_eq!(out, " (b=x)\n    a: 1\n    2\n");
}

#[test]
fn indent_lines() {
    assert_eq!(indent("a\nb"), "    a\n    b");
    assert_eq!(indent(""), "    ");
    assert_eq!(indent("a\n"), "    a");
    assert_eq!(indent("a\r\nb\r\n"), "    a\n    b");
    assert_eq!(indent("a\n\nb"), "    a\n    \n    b");
    assert_eq!(indent("a\rb"), "    a\rb");
}

#[test]
fn plain_level_names() {
    assert_eq!(format_level(LogLevel::FATAL, false), "FATAL");
    assert_eq!(format_level(LogLevel::TRACE, false), "TRACE");
}

#[test]
fn colours_when_asked() {
    colored::control::set_override(true);
    assert_eq!(paint("x", Paint::Red, true), "\u{1b}[31mx\u{1b}[0m");
    assert_eq!(paint("x", Paint::Cyan, true), "\u{1b}[36mx\u{1b}[0m");
    assert_eq!(paint("x", Paint::Magenta, true), "\u{1b}[35mx\u{1b}[0m");
    assert_eq!(paint("x", Paint::Yellow, true), "\u{1b}[33mx\u{1b}[0m");
    assert_eq!(paint("x", Paint::White, true), "\u{1b}[37mx\u{1b}[0m");
    assert_eq!(paint("x", Paint::Bold, true), "\u{1b}[1mx\u{1b}[0m");
    assert_eq!(paint("x", Paint::Reversed, true), "\u{1b}[7mx\u{1b}[0m");
    assert_eq!(paint("x", Paint::Highlight, true), "\u{1b}[40;97mx\u{1b}[0m");
    assert_eq!(format_level(LogLevel::INFO, true), "\u{1b}[36mINFO\u{1b}[0m");
    assert_eq!(paint("x", Paint::Red, false), "x");
}

#[test]
fn level_error_from_record() {
    let err = LogRecord::new("t".to_string(), "verbose", "m".to_string(), vec![]).unwrap_err();
    assert_eq!(err.message(), "Invalid level value: 'verbose'");
}

#[test]
fn removing_hidden_field_changes_nothing() {
    let long = "q".repeat(70);
    for key in ["pid", "host", "file", "line", "target", "name"] {
        for value in [text(key, "1"), text(key, &long), text(key, "a\nb"), json(key, &serde_json::from_str::<serde_json::Value>(r#"{"a":1}"#).unwrap())] {
            let with = vec![text("a", "x"), value, text("b", "y\nz")];
            let without = vec![text("a", "x"), text("b", "y\nz")];
            assert_eq!(format_extras(&with, false), format_extras(&without, false));
        }
    }
}

#[test]
fn record_level_casing_does_not_matter() {
    let outs: Vec<String> = ["info", "INFO", "Info"]
        .iter()
        .map(|l| process_line("", Ok(record(l, vec![text("user", "bob")])), LogLevel::TRACE, false))
        .collect();
    assert_eq!(outs[0], outs[1]);
    assert_eq!(outs[0], outs[2]);
}
