use ygo_cards::diagnostics::{
    finish, init, record, snapshot, write_header, write_record, write_summary, Diagnostic,
    DiagnosticSnapshot, Severity, BUILD_LOG_PATH,
};

#[test]
fn formats_structured_diagnostic_records() {
    let diagnostic = Diagnostic::warning("card.skipped", "Card was skipped")
        .context("Environment", "OT")
        .context("Card ID", "42")
        .reason("name is empty\nvalue cannot be normalized")
        .suggestion("Inspect the upstream card text");

    assert_eq!(
        write_record(7, &diagnostic),
        "[WARNING 007] Card was skipped\n\
         \x20 Code        : card.skipped\n\
         \x20 Environment : OT\n\
         \x20 Card ID     : 42\n\
         \x20 Reason      : name is empty\n\
         \x20               value cannot be normalized\n\
         \x20 Suggestion  : Inspect the upstream card text\n\n"
    );
}

#[test]
fn formats_clean_summary() {
    assert_eq!(write_summary(0, 0), "Summary\n-------\nWarnings : 0\nErrors   : 0\n");
}

#[test]
fn wraps_long_diagnostic_values_at_word_boundaries() {
    let diagnostic = Diagnostic::warning("network.retry", "Request will be retried").reason(
        "download failed because the remote endpoint closed the connection before the full response body was received; the request can be retried safely",
    );

    let output = write_record(1, &diagnostic);

    assert!(output.contains("download failed because"));
    assert!(output.contains("retried safely"));
    assert_eq!(output.lines().filter(|line| line.contains("received")).count(), 1);
    assert!(output.lines().all(|line| line.chars().count() <= 100));
}

#[test]
fn build_log_path_is_scoped_to_output() {
    assert!(std::path::Path::new(BUILD_LOG_PATH).starts_with("output"));
}

#[test]
fn writes_the_header_with_the_version() {
    assert_eq!(
        write_header("1.2.3"),
        "ygo-cards build diagnostics\n===========================\nVersion: 1.2.3\n\n"
    );
}

#[test]
fn labels_severities() {
    assert_eq!(Severity::Warning.label(), "WARNING");
    assert_eq!(Severity::Error.label(), "ERROR");
}

#[test]
fn numbers_records_and_counts_them() {
    let mut log = init("output/build.log");
    let first = record(&mut log, Diagnostic::warning("a", "First"));
    assert!(first.unwrap().starts_with("[WARNING 001] First\n"));
    let second = record(&mut log, Diagnostic::error("b", "Second").reason("broken"));
    assert!(second.unwrap().starts_with("[ERROR 002] Second\n"));

    let snap = snapshot(&log);
    assert_eq!(snap.records().len(), 2);
    assert_eq!(snap.warnings(), 1);
    assert_eq!(snap.errors(), 1);
    assert!(!snap.is_clean());
    assert_eq!(snap.records()[1].reason_text(), Some("broken"));

    let closing = finish(&mut log).unwrap();
    assert_eq!(closing, "Summary\n-------\nWarnings : 1\nErrors   : 1\n");
    assert!(record(&mut log, Diagnostic::warning("c", "Late")).is_none());
    assert_eq!(snapshot(&log).records().len(), 2);
    assert!(finish(&mut log).is_none());
}

#[test]
fn reports_an_empty_log_as_clean() {
    let mut log = init("output/build.log");
    assert!(snapshot(&log).is_clean());
    assert_eq!(
        finish(&mut log).unwrap(),
        "No warnings or errors were recorded.\n\nSummary\n-------\nWarnings : 0\nErrors   : 0\n"
    );
}

#[test]
fn stops_writing_after_a_write_error() {
    let mut log = init("output/build.log");
    log.note_write_error("disk full");
    assert!(record(&mut log, Diagnostic::warning("a", "Kept")).is_none());
    assert_eq!(log.record_count(), 1);
    assert_eq!(log.check_write_error().unwrap_err(), "failed to write build log output/build.log: disk full");
    assert!(finish(&mut log).is_none());
}

#[test]
fn snapshots_count_warnings_and_errors() {
    let snap = DiagnosticSnapshot::from_records(vec![
        Diagnostic::warning("a", "A"),
        Diagnostic::warning("b", "B"),
        Diagnostic::error("c", "C"),
    ]);
    assert_eq!(snap.warnings(), 2);
    assert_eq!(snap.errors(), 1);
    let empty = DiagnosticSnapshot::default();
    assert!(empty.is_clean());
    assert_eq!(empty.warnings() + empty.errors(), 0);
}

#[test]
fn exposes_diagnostic_fields() {
    let d = Diagnostic::error("x.y", "Title").context("K", "V").suggestion("S");
    assert_eq!(d.severity(), Severity::Error);
    assert_eq!(d.code(), "x.y");
    assert_eq!(d.title(), "Title");
    assert_eq!(d.fields()[0].label(), "K");
    assert_eq!(d.fields()[0].value(), "V");
    assert_eq!(d.reason_text(), None);
    assert_eq!(d.suggestion_text(), Some("S"));
}
