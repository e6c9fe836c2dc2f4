use activity_logger::records::{count_lines, key_log_line, log_lines, quote, read_logs, window_log_line};

#[test]
fn key_record_line() {
    assert_eq!(
        key_log_line("2024-05-01 10:00:00", "Editor", "hi"),
        r#"{"input":"hi","timestamp":"2024-05-01 10:00:00","window":"Editor"}"#
    );
}

#[test]
fn window_record_line() {
    assert_eq!(
        window_log_line("2024-05-01 10:00:00", "Browser"),
        r#"{"timestamp":"2024-05-01 10:00:00","title":"Browser"}"#
    );
}

#[test]
fn quoting_escapes() {
    assert_eq!(quote("plain"), "\"plain\"");
    assert_eq!(quote("a\"b\\c"), "\"a\\\"b\\\\c\"");
    assert_eq!(quote("\n\t\r\u{8}\u{c}"), "\"\\n\\t\\r\\b\\f\"");
    assert_eq!(quote("\u{1}\u{1f}"), "\"\\u0001\\u001f\"");
    assert_eq!(quote("é\u{7f}"), "\"é\u{7f}\"");
}

#[test]
fn records_round_trip_through_serde_json() {
    let line = key_log_line("t", "w \"x\"", "in\nput");
    let v: serde_json::Value = serde_json::from_str(&line).unwrap();
    assert_eq!(v["input"], "in\nput");
    assert_eq!(v["window"], "w \"x\"");
    assert_eq!(v["timestamp"], "t");
}

#[test]
fn lines_split_like_bufread() {
    assert_eq!(log_lines(""), Vec::<String>::new());
    assert_eq!(log_lines("a\nb"), vec!["a".to_string(), "b".to_string()]);
    assert_eq!(log_lines("a\r\nb\n"), vec!["a".to_string(), "b".to_string()]);
    assert_eq!(log_lines("\n\n"), vec!["".to_string(), "".to_string()]);
    assert_eq!(count_lines("x\ny\nz"), 3);
    assert_eq!(count_lines(""), 0);
}

#[test]
fn reader_skips_malformed_and_partial_lines() {
    let a = key_log_line("t1", "Editor", "hi");
    let b = window_log_line("t2", "Browser");
    let content = format!("{a}\nnot json\n{b}\n{{\"input\":\"ab");
    let got = read_logs(&content);
    assert_eq!(got, vec![a, b]);
}

#[test]
fn reader_on_empty_log() {
    assert!(read_logs("").is_empty());
}
