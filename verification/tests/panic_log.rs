use renderide::panic_log::{
    append_log_directory_footer, log_directory_footer, log_directory_footer_bytes, log_panic,
    log_panic_payload, panic_report, sanitize_footer_path, PanicPayload,
    LOG_DIRECTORY_FOOTER_PREFIX,
};

fn captured_backtrace() -> String {
    format!("{:#?}", std::backtrace::Backtrace::force_capture())
}

#[test]
fn panic_report_contains_panic_and_backtrace_labels() {
    let s = panic_report("test panic display", &captured_backtrace());
    assert!(s.starts_with("PANIC: "));
    assert!(s.contains("test panic display"));
    assert!(s.contains("Backtrace:"));
}

#[test]
fn panic_report_includes_provided_display() {
    let s = panic_report("test panic display", &captured_backtrace());
    assert!(
        s.contains("PANIC: test panic display"),
        "expected full display in report: {s}"
    );
}

#[test]
fn log_directory_footer_formats_single_final_line() {
    let s = log_directory_footer("/tmp/renderide/logs");

    assert_eq!(s, "Log directory: /tmp/renderide/logs\n");
    assert_eq!(s.lines().count(), 1);
}

#[test]
fn log_directory_footer_replaces_embedded_newlines() {
    let s = log_directory_footer("/tmp/renderide\nlogs\rroot");

    assert_eq!(s, "Log directory: /tmp/renderide logs root\n");
    assert_eq!(s.lines().count(), 1);
}

#[test]
fn append_log_directory_footer_makes_footer_last_line() {
    let mut report = "PANIC: test\nBacktrace:\nframe\n".to_string();

    append_log_directory_footer(&mut report, "/tmp/renderide/logs");

    assert_eq!(
        report.lines().last(),
        Some("Log directory: /tmp/renderide/logs")
    );
}

#[test]
fn log_panic_payload_string_branch() {
    let line = log_panic_payload(PanicPayload::Text("boom".to_string()), "ctx");
    assert_eq!(line, "ctx: boom");
}

#[test]
fn log_panic_payload_static_str_branch() {
    let line = log_panic_payload(PanicPayload::Text("static boom".to_string()), "ctx");
    assert_eq!(line, "ctx: static boom");
}

#[test]
fn log_panic_payload_other_type() {
    let line = log_panic_payload(PanicPayload::Other, "ctx");
    assert_eq!(line, "ctx: panic (payload type not string)");
}

#[test]
fn log_directory_footer_bytes_are_single_line() {
    let footer = log_directory_footer_bytes("/tmp/renderide/logs");
    let text = std::str::from_utf8(&footer).expect("utf8 footer");

    assert!(text.starts_with(LOG_DIRECTORY_FOOTER_PREFIX));
    assert!(text.ends_with('\n'));
    assert_eq!(text.lines().count(), 1);
}

#[test]
fn log_panic_report_ends_with_footer_line() {
    let report = log_panic("boom", "frame 0\nframe 1", "/logs\nroot");
    assert!(report.starts_with("PANIC: boom\nBacktrace:\nframe 0\nframe 1\n"));
    assert_eq!(report.lines().last(), Some("Log directory: /logs root"));
    assert!(report.ends_with('\n'));
}

#[test]
fn sanitize_footer_path_keeps_other_characters() {
    assert_eq!(sanitize_footer_path("a\r\nb\tc"), "a  b\tc");
    assert_eq!(sanitize_footer_path(""), "");
}

#[test]
fn footer_prefix_is_the_footer_start() {
    assert_eq!(LOG_DIRECTORY_FOOTER_PREFIX, "Log directory: ");
}
