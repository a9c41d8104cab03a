use claude_code_launch::json::{as_i64, as_u64, get, remove_member, sanitize_json_value, sanitized, JsonValue};
use claude_code_launch::process_log::{
    command_line, command_start_event, deadline_passed, finish_command, sanitize_stream_line, spawn_error,
    stream_log_event, strip_ansi_and_control, timeout_error, wait_error, OutputCollector,
};
use claude_code_launch::transcript::{transcript_page, TranscriptLineItem};
use claude_code_launch::text::{contains_str, parse_bounded_chars, trim_str, u64_to_string, i64_to_string};

fn num(t: &str) -> JsonValue {
    JsonValue::Number(t.to_string())
}

fn obj(entries: Vec<(&str, JsonValue)>) -> JsonValue {
    JsonValue::Object(entries.into_iter().map(|(k, v)| (k.to_string(), v)).collect())
}

fn s(t: &str) -> JsonValue {
    JsonValue::Str(t.to_string())
}

#[test]
fn strip_ansi_removes_escapes_and_controls() {
    assert_eq!(strip_ansi_and_control("\u{1b}[31mred\u{1b}[0m plain"), "red plain");
    assert_eq!(strip_ansi_and_control("\u{1b}]0;title\u{07}after"), "after");
    assert_eq!(strip_ansi_and_control("\u{1b}]0;t\u{1b}\\x"), "x");
    assert_eq!(strip_ansi_and_control("a\tb\nc\u{0}d\u{7f}"), "a\tb\ncd");
    assert_eq!(strip_ansi_and_control("plain text"), "plain text");
}

#[test]
fn stream_lines_keep_the_last_carriage_segment() {
    assert_eq!(sanitize_stream_line("10%\r50%\r100%"), "100%");
    assert_eq!(sanitize_stream_line("a\rb\nc\rd"), "b\nd");
    assert_eq!(sanitize_stream_line("\u{1b}[32mok\u{1b}[0m"), "ok");
}

#[test]
fn stream_events_and_commands() {
    let e = stream_log_event("install", true, "\u{1b}[31merr\u{1b}[0m".to_string(), 42);
    assert_eq!(e.level, "error");
    assert_eq!(e.message, "err");
    assert_eq!(e.raw.as_deref(), Some("\u{1b}[31merr\u{1b}[0m"));
    assert_eq!(e.timestamp, 42);
    let line = command_line("npm", &["install", "-g", "pkg"]);
    assert_eq!(line, "npm install -g pkg");
    let start = command_start_event("install", "info", &line, 1);
    assert_eq!(start.message, "执行命令: npm install -g pkg");
    assert_eq!(timeout_error(30, &line), "命令执行超时(30s): npm install -g pkg");
    assert_eq!(spawn_error("not found"), "启动命令失败: not found");
    assert_eq!(wait_error("x"), "等待命令结束失败: x");
    let r = finish_command(true, Some(0), &["a".to_string(), "b".to_string()], &[]);
    assert_eq!(r.stdout, "a\nb");
    assert_eq!(r.stderr, "");
}

#[test]
fn output_collector_keeps_streams_apart() {
    let mut c = OutputCollector::new();
    let e1 = c.record_line("verify", false, "out1".to_string(), 1);
    let e2 = c.record_line("verify", true, "err1".to_string(), 2);
    c.record_line("verify", false, "out2".to_string(), 3);
    assert_eq!(e1.level, "info");
    assert_eq!(e2.level, "error");
    let r = c.finish(false, Some(2));
    assert_eq!(r.stdout, "out1\nout2");
    assert_eq!(r.stderr, "err1");
    assert_eq!(r.exit_code, Some(2));
    assert!(!deadline_passed(29_999, Some(30)));
    assert!(deadline_passed(30_000, Some(30)));
    assert!(!deadline_passed(u64::MAX, None));
}

#[test]
fn sanitizing_is_recursive_and_idempotent() {
    let mut v = obj(vec![
        ("Authorization", s("Bearer x")),
        ("list", JsonValue::Array(vec![obj(vec![("session_token", num("1"))]), s("plain")])),
        ("Keyboard", s("qwerty")),
        ("cookies", obj(vec![("a", s("b"))])),
    ]);
    sanitize_json_value(&mut v);
    let again = sanitized(&v);
    match (&v, &again) {
        (JsonValue::Object(a), JsonValue::Object(b)) => {
            assert_eq!(a.len(), 4);
            assert!(matches!(&a[0].1, JsonValue::Str(t) if t == "[REDACTED]"));
            assert!(matches!(&a[2].1, JsonValue::Str(t) if t == "qwerty"));
            assert!(matches!(&a[3].1, JsonValue::Str(t) if t == "[REDACTED]"));
            match &a[1].1 {
                JsonValue::Array(items) => match &items[0] {
                    JsonValue::Object(inner) => assert!(matches!(&inner[0].1, JsonValue::Str(t) if t == "[REDACTED]")),
                    _ => panic!("object expected"),
                },
                _ => panic!("array expected"),
            }
            assert_eq!(b.len(), 4);
            assert!(matches!(&b[2].1, JsonValue::Str(t) if t == "qwerty"));
        }
        _ => panic!("objects expected"),
    }
}

#[test]
fn members_are_removed_and_numbers_read() {
    let v = obj(vec![("raw_stdin", s("x")), ("n", num("42")), ("neg", num("-7")), ("f", num("1.5"))]);
    let r = remove_member(v, "raw_stdin");
    assert!(get(&r, "raw_stdin").is_none());
    assert_eq!(as_u64(get(&r, "n")), Some(42));
    assert_eq!(as_i64(get(&r, "neg")), Some(-7));
    assert_eq!(as_u64(get(&r, "neg")), None);
    assert_eq!(as_u64(get(&r, "f")), None);
    assert_eq!(as_i64(Some(&num("-9223372036854775808"))), Some(i64::MIN));
    assert_eq!(as_i64(Some(&num("9223372036854775808"))), None);
    assert_eq!(as_u64(Some(&num("18446744073709551615"))), Some(u64::MAX));
}

#[test]
fn json_text_objects() {
    let row = |n: i64, t: &str| TranscriptLineItem { line_no: n, line_content: t.to_string() };
    let rows = vec![row(3, "not json"), row(2, "[1]"), row(1, " {\"a\":1} ")];
    let page = transcript_page(&rows, 5);
    assert_eq!(page.items.len(), 1);
    assert_eq!(page.items[0].line_no, 1);
    assert_eq!(page.skipped_lines, 2);
}

#[test]
fn text_helpers() {
    assert_eq!(trim_str("  a b \n"), "a b");
    assert!(contains_str("hello world", "o w"));
    assert!(!contains_str("abc", "abcd"));
    assert_eq!(parse_bounded_chars(&['4', '2'], 100), Some(42));
    assert_eq!(parse_bounded_chars(&['+', '7'], 100), Some(7));
    assert_eq!(parse_bounded_chars(&['1', '0', '1'], 100), None);
    assert_eq!(parse_bounded_chars(&['-', '1'], 100), None);
    assert_eq!(parse_bounded_chars(&[], 100), None);
    assert_eq!(u64_to_string(1234567890), "1234567890");
    assert_eq!(i64_to_string(-45), "-45");
    assert_eq!(i64_to_string(i64::MIN), "-9223372036854775808");
}

#[test]
fn cleaned_text_is_a_subsequence_of_its_input() {
    let input = "a\u{1b}[31mb\u{7}c\u{1b}]0;title\u{7}d\te\u{1b}";
    let out = strip_ansi_and_control(input);
    assert_eq!(out, "abcd\te");
    let mut rest = input.chars();
    for c in out.chars() {
        assert!(rest.any(|x| x == c));
    }
}
