use logview::level::{Color, Level};
use logview::parse::{parse_line, parse_millis};

#[test]
fn parses_sample_line() {
    let line = r#"{"time":1552019857416,"level":30,"msg":"hello","name":"svc"}"#;
    let rec = parse_line(line).unwrap();
    assert_eq!(rec.time_ms, 1552019857416);
    assert_eq!(rec.level, Level(30));
    assert_eq!(rec.msg, "hello");
    assert_eq!(rec.name.as_deref(), Some("svc"));
}

#[test]
fn parses_line_without_name() {
    let line = r#"{"time":0,"level":60,"msg":"line1\nline2"}"#;
    let rec = parse_line(line).unwrap();
    assert_eq!(rec.time_ms, 0);
    assert_eq!(rec.level, Level(60));
    assert_eq!(rec.msg, "line1\nline2");
    assert_eq!(rec.name, None);
}

#[test]
fn null_name_counts_as_absent() {
    let line = r#"{"time":1,"level":30,"msg":"m","name":null}"#;
    let rec = parse_line(line).unwrap();
    assert_eq!(rec.name, None);
}

#[test]
fn field_order_and_extra_fields_do_not_matter() {
    let line = r#"{"msg":"m","extra":[1,{"a":2}],"level":20,"time":5}"#;
    let rec = parse_line(line).unwrap();
    assert_eq!(rec.time_ms, 5);
    assert_eq!(rec.level, Level(20));
    assert_eq!(rec.msg, "m");
}

#[test]
fn malformed_lines_yield_nothing() {
    assert!(parse_line("not json").is_none());
    assert!(parse_line("").is_none());
    assert!(parse_line("{}").is_none());
    assert!(parse_line(r#"{"time":1,"level":30}"#).is_none()); // no msg
    assert!(parse_line(r#"{"time":1,"msg":"m"}"#).is_none()); // no level
    assert!(parse_line(r#"{"level":30,"msg":"m"}"#).is_none()); // no time
    assert!(parse_line(r#"{"time":"1","level":30,"msg":"m"}"#).is_none()); // time not a number
    assert!(parse_line(r#"{"time":1,"level":30.5,"msg":"m"}"#).is_none()); // level not integral
    assert!(parse_line(r#"{"time":1,"level":30,"msg":7}"#).is_none()); // msg not a string
    assert!(parse_line(r#"{"time":1,"level":30,"msg":"m","name":3}"#).is_none()); // name not a string
    assert!(parse_line(r#"[1,2,3]"#).is_none()); // not an object
}

#[test]
fn fractional_time_truncates_toward_zero() {
    let rec = parse_line(r#"{"time":1234.9,"level":30,"msg":"m"}"#).unwrap();
    assert_eq!(rec.time_ms, 1234);
    let rec = parse_line(r#"{"time":-1500.5,"level":30,"msg":"m"}"#).unwrap();
    assert_eq!(rec.time_ms, -1500);
}

#[test]
fn time_beyond_the_shortest_decimal_form_is_dropped() {
    // 1e17 milliseconds prints in exponent form, which is not a timestamp
    assert!(parse_line(r#"{"time":1e17,"level":30,"msg":"m"}"#).is_none());
}

#[test]
fn level_outside_i32_is_dropped() {
    assert!(parse_line(r#"{"time":1,"level":3000000000,"msg":"m"}"#).is_none());
    let rec = parse_line(r#"{"time":1,"level":-5,"msg":"m"}"#).unwrap();
    assert_eq!(rec.level, Level(-5));
}

#[test]
fn millis_parser_reads_plain_and_fractional_numbers() {
    assert_eq!(parse_millis("123"), Some(123));
    assert_eq!(parse_millis("123.9"), Some(123));
    assert_eq!(parse_millis("-5.9"), Some(-5));
    assert_eq!(parse_millis("0"), Some(0));
    assert_eq!(parse_millis("1552019857416"), Some(1552019857416));
    assert_eq!(parse_millis("9223372036854775807"), Some(i64::MAX));
    assert_eq!(parse_millis("-9223372036854775808"), Some(i64::MIN));
}

#[test]
fn millis_parser_rejects_other_shapes() {
    assert_eq!(parse_millis(""), None);
    assert_eq!(parse_millis("-"), None);
    assert_eq!(parse_millis("12."), None);
    assert_eq!(parse_millis(".5"), None);
    assert_eq!(parse_millis("-.5"), None);
    assert_eq!(parse_millis("1.2.3"), None);
    assert_eq!(parse_millis("1e3"), None);
    assert_eq!(parse_millis("12a"), None);
    assert_eq!(parse_millis("9223372036854775808"), None);
    assert_eq!(parse_millis("-9223372036854775809"), None);
    assert_eq!(parse_millis("99999999999999999999999999"), None);
}

#[test]
fn level_names_follow_the_table() {
    assert_eq!(Level(10).name(), "trace");
    assert_eq!(Level(20).name(), "debug");
    assert_eq!(Level(30).name(), "info");
    assert_eq!(Level(40).name(), "warn");
    assert_eq!(Level(50).name(), "error");
    assert_eq!(Level(60).name(), "fatal");
    assert_eq!(Level(0).name(), "");
    assert_eq!(Level(25).name(), "");
    assert_eq!(Level(-1).name(), "");
    assert_eq!(Level(35).name(), "");
}

#[test]
fn level_colors_follow_the_boundaries() {
    assert_eq!(Level(0).color(), Color::Blue);
    assert_eq!(Level(10).color(), Color::Blue);
    assert_eq!(Level(20).color(), Color::Blue);
    assert_eq!(Level(21).color(), Color::BrightWhite);
    assert_eq!(Level(30).color(), Color::BrightWhite);
    assert_eq!(Level(31).color(), Color::Yellow);
    assert_eq!(Level(40).color(), Color::Yellow);
    assert_eq!(Level(41).color(), Color::Red);
    assert_eq!(Level(60).color(), Color::Red);
    assert_eq!(Level(-1).color(), Color::Red);
}
