use logview::parse::parse_line;
use logview::render::{render_lines, render_record};

fn render_one(line: &str, color_on: bool) -> String {
    let rec = parse_line(line).unwrap();
    render_record(&rec, color_on)
}

#[test]
fn renders_sample_line_plain() {
    let out = render_one(
        r#"{"time":1552019857416,"level":30,"msg":"hello","name":"svc"}"#,
        false,
    );
    assert_eq!(out, "2019-03-08 04:37:37 info (svc) hello\n");
}

#[test]
fn renders_sample_line_colored() {
    let out = render_one(
        r#"{"time":1552019857416,"level":30,"msg":"hello","name":"svc"}"#,
        true,
    );
    assert_eq!(
        out,
        "\x1b[37m2019-03-08 04:37:37 info\x1b[0m\x1b[32m (svc)\x1b[0m \x1b[97mhello\x1b[0m\n"
    );
}

#[test]
fn renders_multiline_fatal_plain() {
    let out = render_one(r#"{"time":0,"level":60,"msg":"line1\nline2"}"#, false);
    assert_eq!(
        out,
        "1970-01-01 00:00:00 fatal {\n        line1\n        line2\n}\n"
    );
}

#[test]
fn renders_multiline_fatal_colored() {
    let out = render_one(r#"{"time":0,"level":60,"msg":"line1\nline2"}"#, true);
    assert_eq!(
        out,
        "\x1b[37m1970-01-01 00:00:00 fatal\x1b[0m\x1b[37m {\x1b[0m\n        \x1b[31mline1\x1b[0m\n        \x1b[31mline2\x1b[0m\n\x1b[37m}\x1b[0m\n"
    );
}

#[test]
fn unnamed_level_renders_with_empty_name() {
    let out = render_one(r#"{"time":0,"level":35,"msg":"careful"}"#, false);
    assert_eq!(out, "1970-01-01 00:00:00  careful\n");
}

#[test]
fn empty_message_renders_as_one_line() {
    let out = render_one(r#"{"time":0,"level":30,"msg":""}"#, false);
    assert_eq!(out, "1970-01-01 00:00:00 info \n");
}

#[test]
fn trailing_newline_opens_an_empty_block_line() {
    let out = render_one(r#"{"time":0,"level":30,"msg":"a\n"}"#, false);
    assert_eq!(out, "1970-01-01 00:00:00 info {\n        a\n        \n}\n");
}

#[test]
fn out_of_range_time_renders_placeholder() {
    let out = render_one(r#"{"time":9223372036854775807,"level":30,"msg":"m"}"#, false);
    assert_eq!(out, "????-??-?? ??:??:?? info m\n");
}

#[test]
fn one_shot_renders_each_well_formed_line_in_order() {
    let lines: Vec<String> = vec![
        r#"{"time":0,"level":30,"msg":"first"}"#.to_string(),
        "garbage".to_string(),
        r#"{"time":1000,"level":40,"msg":"second"}"#.to_string(),
        r#"{"time":2000,"level":50,"msg":"third"}"#.to_string(),
    ];
    let out = render_lines(&lines, false);
    assert_eq!(out.len(), 3);
    assert_eq!(out[0], "1970-01-01 00:00:00 info first\n");
    assert_eq!(out[1], "1970-01-01 00:00:01 warn second\n");
    assert_eq!(out[2], "1970-01-01 00:00:02 error third\n");
}

#[test]
fn malformed_lines_render_nothing() {
    let lines: Vec<String> = vec![
        "not a record".to_string(),
        "{\"level\":30}".to_string(),
    ];
    let out = render_lines(&lines, true);
    assert_eq!(out.len(), 0);
}

#[test]
fn negative_time_renders_before_the_epoch() {
    let out = render_one(r#"{"time":-1000,"level":30,"msg":"m"}"#, false);
    assert_eq!(out, "1969-12-31 23:59:59 info m\n");
}
