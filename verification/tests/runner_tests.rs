use snow_plow::errors::{Error, Warning};
use snow_plow::runner::{classify_lines, process_output};

fn lines(ls: &[&str]) -> Vec<String> {
    ls.iter().map(|l| l.to_string()).collect()
}

#[test]
fn classify_interleaved_stream() {
    let input = lines(&["error: A", "context1", "warning: B", "error: C"]);
    let (records, warnings) = classify_lines(&input);
    assert_eq!(records.len(), 2);
    assert_eq!(records[0].title, "error: A");
    assert_eq!(records[0].details, vec!["context1".to_string()]);
    assert_eq!(records[1].title, "error: C");
    assert!(records[1].details.is_empty());
    assert_eq!(warnings, vec!["warning: B".to_string()]);
}

#[test]
fn classify_trims_stored_lines() {
    let input = lines(&["error: boom  \t", "  some context\t", "warning: careful  "]);
    let (records, warnings) = classify_lines(&input);
    assert_eq!(records.len(), 1);
    assert_eq!(records[0].title, "error: boom");
    assert_eq!(records[0].details, vec!["some context".to_string()]);
    assert_eq!(warnings, vec!["warning: careful".to_string()]);
}

#[test]
fn classify_marker_must_start_the_line() {
    let input = lines(&["  error: indented"]);
    let (records, warnings) = classify_lines(&input);
    assert!(records.is_empty());
    assert_eq!(warnings, vec!["error: indented".to_string()]);
}

#[test]
fn classify_loose_line_without_open_record_is_warning() {
    let input = lines(&["stray note", "error: X", "tail"]);
    let (records, warnings) = classify_lines(&input);
    assert_eq!(warnings, vec!["stray note".to_string()]);
    assert_eq!(records.len(), 1);
    assert_eq!(records[0].title, "error: X");
    assert_eq!(records[0].details, vec!["tail".to_string()]);
}

#[test]
fn classify_empty_stream() {
    let (records, warnings) = classify_lines(&Vec::new());
    assert!(records.is_empty());
    assert!(warnings.is_empty());
}

#[test]
fn success_turns_stderr_into_warnings() {
    let input = lines(&["error: looks scary", "  but exit was zero  "]);
    let (ws, outcome) = process_output(true, &input);
    assert!(outcome.is_ok());
    assert_eq!(ws.len(), 2);
    assert!(matches!(&ws[0], Warning::Diagnostic(l) if l == "error: looks scary"));
    assert!(matches!(&ws[1], Warning::Diagnostic(l) if l == "but exit was zero"));
    assert_eq!(ws[1].msg(), "nix: but exit was zero");
}

#[test]
fn failure_reports_records_and_warnings() {
    let input = lines(&["error: A", "context1", "warning: B", "error: C"]);
    let (ws, outcome) = process_output(false, &input);
    assert_eq!(ws.len(), 1);
    assert!(matches!(&ws[0], Warning::Diagnostic(l) if l == "warning: B"));
    let es = outcome.unwrap_err();
    assert_eq!(es.len(), 2);
    match &es[0] {
        Error::Nix(r) => {
            assert_eq!(r.title, "error: A");
            assert_eq!(r.details, vec!["context1".to_string()]);
            assert_eq!(r.msg(), "error: A\ncontext1");
        }
        e => panic!("unexpected error {:?}", e),
    }
    assert!(matches!(&es[1], Error::Nix(r) if r.title == "error: C"));
}

#[test]
fn silent_failure_still_fails_with_one_record() {
    let input = lines(&["warning: only warnings here"]);
    let (ws, outcome) = process_output(false, &input);
    assert_eq!(ws.len(), 1);
    let es = outcome.unwrap_err();
    assert_eq!(es.len(), 1);
    match &es[0] {
        Error::Nix(r) => {
            assert_eq!(r.title, "error: nix exited unsuccessfully without an error report");
            assert!(r.details.is_empty());
        }
        e => panic!("unexpected error {:?}", e),
    }
}
