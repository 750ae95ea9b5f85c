use notionssh::executor::combine_output;
use notionssh::logger::{
    audit_log_line, command_log_filename, command_log_line, format_bracket_timestamp, pad_dec,
    u32_to_dec,
};
use notionssh::notion::{result_body, result_meta};

#[test]
fn decimal_rendering() {
    assert_eq!(u32_to_dec(0), "0");
    assert_eq!(u32_to_dec(7), "7");
    assert_eq!(u32_to_dec(90210), "90210");
    assert_eq!(pad_dec(7, 4), "0007");
    assert_eq!(pad_dec(12345, 4), "12345");
    assert_eq!(pad_dec(0, 2), "00");
}

#[test]
fn bracket_timestamp_format() {
    let ts = format_bracket_timestamp(2025, 9, 10, 16, 44, 123_456_789);
    assert_eq!(ts, "[2025-09-10:16:44:12345]");
    let ts0 = format_bracket_timestamp(2025, 1, 2, 3, 4, 0);
    assert_eq!(ts0, "[2025-01-02:03:04:00000]");
}

#[test]
fn command_log_texts() {
    assert_eq!(command_log_filename(2025, 9, 10), "command.20250910.log");
    let line = command_log_line("[2025-09-10:16:44:00000]", "user@example.com", "DIR");
    assert_eq!(line, "[2025-09-10:16:44:00000] {user@example.com} : DIR\n");
}

#[test]
fn audit_log_text() {
    let line = audit_log_line("cmd", "req", "2025-01-01T00:00:00Z", "node1", "success");
    assert_eq!(line, "cmd , req , 2025-01-01T00:00:00Z , node1 , success\n");
    assert!(line.contains("cmd , req , 2025-01-01T00:00:00Z , node1 , success"));
}

#[test]
fn result_texts_carry_marker_and_metadata() {
    let body = result_body("echo hi", "hello", "u@example.com", "node1", "2025-01-01T00:00:00Z");
    assert!(body.starts_with("$ echo hi\nhello\n---\n"));
    assert!(body.contains("notionSSH-executed"));
    assert!(body.contains("executed_by=u@example.com"));
    let meta = result_meta("u@example.com", "node1");
    assert!(meta.contains("email: u@example.com"));
    assert!(meta.contains("machine:"));
    assert_eq!(meta, "email: u@example.com | machine: node1");
}

#[test]
fn combined_output_shapes() {
    assert_eq!(combine_output("out", "err"), "out\nerr");
    assert_eq!(combine_output("out", ""), "out");
    assert_eq!(combine_output("", "err"), "err");
    assert_eq!(combine_output("", ""), "");
}

#[test]
fn bracket_timestamp_pads_fraction() {
    let ts = format_bracket_timestamp(999, 12, 31, 23, 59, 99_999_999);
    assert_eq!(ts, "[0999-12-31:23:59:09999]");
}
