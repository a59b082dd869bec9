use mpvipc::connection::ConnectionGuard;
use mpvipc::errors::ErrorCode;
use mpvipc::protocol::{classify_line, contains_marker, on_line, scan_lines, Step};
use mpvipc::text::str_eq_str;

#[test]
fn marker_detection() {
    assert!(contains_marker("{\"error\": \"success\"}"));
    assert!(contains_marker("\"error\":"));
    assert!(contains_marker("prefix \"error\": suffix"));
    assert!(!contains_marker(""));
    assert!(!contains_marker("\"error\""));
    assert!(!contains_marker("{\"event\": \"pause\"}"));
}

#[test]
fn success_line_classifies_as_ok() {
    assert_eq!(classify_line("{\"error\": \"success\"}"), Ok(()));
}

#[test]
fn extra_fields_do_not_break_classification() {
    assert_eq!(classify_line("{\"data\": 42, \"error\": \"success\"}"), Ok(()));
}

#[test]
fn player_error_is_carried_verbatim() {
    let r = classify_line("{\"error\": \"property not found\"}");
    assert_eq!(r, Err(ErrorCode::MpvError(String::from("property not found"))));
}

#[test]
fn unparsable_line_is_a_parse_error() {
    let r = classify_line("not json \"error\": oops");
    match r {
        Err(ErrorCode::JsonParseError(_)) => {},
        other => panic!("expected JsonParseError, got {:?}", other),
    }
}

#[test]
fn missing_error_field_is_unexpected() {
    assert_eq!(classify_line("{\"status\": \"ok\"}"), Err(ErrorCode::UnexpectedResult));
}

#[test]
fn non_string_error_field_is_unexpected() {
    assert_eq!(classify_line("{\"error\": 42}"), Err(ErrorCode::UnexpectedResult));
}

#[test]
fn lines_without_marker_are_discarded() {
    assert_eq!(on_line("{\"event\": \"tick\"}"), Step::AwaitMore);
    match on_line("{\"error\": \"success\"}") {
        Step::Done(r) => assert_eq!(r, Ok(())),
        Step::AwaitMore => panic!("marker line must finish the round trip"),
    }
}

#[test]
fn scan_consumes_exactly_through_the_matching_line() {
    let lines = vec![
        String::from("{\"event\": \"property-change\"}"),
        String::from("{\"error\": \"success\"}"),
        String::from("{\"error\": \"never read\"}"),
    ];
    let (outcome, consumed) = scan_lines(&lines);
    assert_eq!(outcome, Some(Ok(())));
    assert_eq!(consumed, 2);
}

#[test]
fn scan_reports_a_player_error() {
    let lines = vec![
        String::from("noise"),
        String::from("{\"error\": \"property unavailable\"}"),
    ];
    let (outcome, consumed) = scan_lines(&lines);
    assert_eq!(
        outcome,
        Some(Err(ErrorCode::MpvError(String::from("property unavailable"))))
    );
    assert_eq!(consumed, 2);
}

#[test]
fn scan_matching_first_line_consumes_one() {
    let lines = vec![String::from("{\"error\": \"success\"}"), String::from("rest")];
    let (outcome, consumed) = scan_lines(&lines);
    assert_eq!(outcome, Some(Ok(())));
    assert_eq!(consumed, 1);
}

#[test]
fn scan_without_marker_consumes_everything() {
    let lines = vec![String::from("a"), String::from("b")];
    let (outcome, consumed) = scan_lines(&lines);
    assert_eq!(outcome, None);
    assert_eq!(consumed, 2);
}

#[test]
fn release_runs_the_teardown_exactly_once() {
    let mut guard = ConnectionGuard::new();
    assert!(guard.release());
    assert!(!guard.release());
    assert!(!guard.release());
}

#[test]
fn string_equality_helper() {
    assert!(str_eq_str("success", "success"));
    assert!(!str_eq_str("success", "succes"));
    assert!(!str_eq_str("", "x"));
    assert!(str_eq_str("", ""));
}
