use kiro_provider::body::default_is_bearer_token_invalid;
use kiro_provider::body::default_is_monthly_request_limit;
use kiro_provider::body::is_input_too_long;
use kiro_provider::body::is_model_temporarily_unavailable;
use kiro_provider::body::is_rate_limit_reason;
use kiro_provider::body::is_rate_limit_response;
use kiro_provider::body::summarize_error_body;
use kiro_provider::body::summarize_fields;
use kiro_provider::body::truncate_one_line;

#[test]
fn test_is_rate_limit_response_detects_reason() {
    let body = r#"{"message":"Too many requests","reason":"RATE_LIMIT_EXCEEDED"}"#;
    assert!(is_rate_limit_response(body));
}

#[test]
fn test_is_rate_limit_response_detects_nested_reason() {
    let body = r#"{"error":{"reason":"REQUEST_LIMIT_5_MINUTES"}}"#;
    assert!(is_rate_limit_response(body));
}

#[test]
fn test_is_rate_limit_response_false() {
    let body = r#"{"message":"Forbidden","reason":"AUTH_FAILED"}"#;
    assert!(!is_rate_limit_response(body));
}

#[test]
fn rate_limit_in_plain_text_in_any_case() {
    assert!(is_rate_limit_response("You hit the RATE Limit"));
    assert!(is_rate_limit_response("we see High Traffic"));
    assert!(is_rate_limit_response("request limit reached"));
    assert!(!is_rate_limit_response("rate_limit"));
    assert!(!is_rate_limit_response(""));
}

#[test]
fn rate_limit_reason_in_any_case_and_place() {
    assert!(is_rate_limit_response(r#"{"reason":"high_traffic"}"#));
    assert!(is_rate_limit_response(r#"{"error":{"reason":"too_many_requests_now"}}"#));
    assert!(!is_rate_limit_response(r#"{"reason":429}"#));
    assert!(!is_rate_limit_response(r#"{"other":{"reason":"high_traffic"}}"#));
    assert!(!is_rate_limit_response(r#"[{"reason":"high_traffic"}]"#));
    assert!(!is_rate_limit_response(r#"{"reason":"high_traffic""#));
    assert!(is_rate_limit_reason("Rate_Limit"));
    assert!(!is_rate_limit_reason("rate limit"));
}

#[test]
fn test_is_monthly_request_limit_detects_reason() {
    let body = r#"{"message":"You have reached the limit.","reason":"MONTHLY_REQUEST_COUNT"}"#;
    assert!(default_is_monthly_request_limit(body));
}

#[test]
fn test_is_monthly_request_limit_nested_reason() {
    let body = r#"{"error":{"reason":"MONTHLY_REQUEST_COUNT"}}"#;
    assert!(default_is_monthly_request_limit(body));
}

#[test]
fn test_is_monthly_request_limit_false() {
    let body = r#"{"message":"nope","reason":"DAILY_REQUEST_COUNT"}"#;
    assert!(!default_is_monthly_request_limit(body));
}

#[test]
fn test_is_invalid_bearer_token_true() {
    let body =
        r#"{"message":"The bearer token included in the request is invalid.","reason":null}"#;
    assert!(default_is_bearer_token_invalid(body));
}

#[test]
fn test_is_invalid_bearer_token_false() {
    let body = r#"{"message":"Forbidden","reason":null}"#;
    assert!(!default_is_bearer_token_invalid(body));
}

#[test]
fn model_unavailable_by_text_or_by_escaped_reason() {
    assert!(is_model_temporarily_unavailable("x MODEL_TEMPORARILY_UNAVAILABLE y"));
    assert!(is_model_temporarily_unavailable(
        r#"{"reason":"MODEL\u005fTEMPORARILY_UNAVAILABLE"}"#
    ));
    assert!(is_model_temporarily_unavailable(
        r#"{"error":{"reason":"MODEL\u005fTEMPORARILY_UNAVAILABLE"}}"#
    ));
    assert!(!is_model_temporarily_unavailable(
        r#"{"message":"MODEL\u005fTEMPORARILY_UNAVAILABLE"}"#
    ));
    assert!(!is_model_temporarily_unavailable(
        r#"{"reason":"MODEL\u005fTEMPORARILY_UNAVAILABLE_NOW"}"#
    ));
    assert!(!is_model_temporarily_unavailable("model_temporarily_unavailable"));
}

#[test]
fn input_too_long_by_code_or_by_text() {
    assert!(is_input_too_long(r#"{"reason":"CONTENT_LENGTH_EXCEEDS_THRESHOLD"}"#));
    assert!(is_input_too_long("Input is too long."));
    assert!(!is_input_too_long("input is too long"));
}

#[test]
fn test_summarize_error_body_extracts_message_and_reason() {
    let body = r#"{"message":"Input is too long.","reason":"CONTENT_LENGTH_EXCEEDS_THRESHOLD"}"#;
    let summary = summarize_error_body(body);
    assert!(summary.contains("Input is too long"));
    assert!(summary.contains("CONTENT_LENGTH_EXCEEDS_THRESHOLD"));
    assert_eq!(summary, "Input is too long. (reason=CONTENT_LENGTH_EXCEEDS_THRESHOLD)");
}

#[test]
fn test_summarize_error_body_extracts_nested_message_and_reason() {
    let body = r#"{"error":{"message":"Improperly formed request","reason":"BAD_REQUEST"}}"#;
    let summary = summarize_error_body(body);
    assert!(summary.contains("Improperly formed request"));
    assert!(summary.contains("BAD_REQUEST"));
}

#[test]
fn test_summarize_error_body_truncates_long_text() {
    let body = "x".repeat(1000);
    let summary = summarize_error_body(&body);
    assert!(summary.len() <= 256 + 3);
    assert!(summary.ends_with("..."));
}

#[test]
fn summary_of_an_empty_body() {
    assert_eq!(summarize_error_body(""), "<empty response body>");
    assert_eq!(summarize_error_body(" \n\u{3000}\t"), "<empty response body>");
}

#[test]
fn summary_takes_the_first_message_and_reason_that_are_texts() {
    assert_eq!(
        summarize_error_body(r#"{"message":7,"Message":"m","error":{"message":"n","Reason":"r"}}"#),
        "m (reason=r)"
    );
    assert_eq!(
        summarize_error_body(r#"  {"error":{"Message":"deep"},"Reason":"Why"} "#),
        "deep (reason=Why)"
    );
}

#[test]
fn summary_leaves_out_a_reason_that_says_nothing_new() {
    assert_eq!(summarize_error_body(r#"{"message":"a BAD b","reason":"BAD"}"#), "a BAD b");
    assert_eq!(summarize_error_body(r#"{"message":"a","reason":"null"}"#), "a");
    assert_eq!(summarize_error_body(r#"{"message":"a","reason":""}"#), "a");
    assert_eq!(summarize_error_body(r#"{"message":"a","reason":null}"#), "a");
}

#[test]
fn summary_without_message_is_the_text_on_one_line() {
    assert_eq!(summarize_error_body("{\n  \"reason\":\t\"x\"\n}"), "{ \"reason\": \"x\" }");
    assert_eq!(summarize_error_body("  a \r\n b  "), "a b");
}

#[test]
fn summary_of_given_fields() {
    assert_eq!(summarize_fields("t", Some("m\nn"), Some("r")), "m n (reason=r)");
    assert_eq!(summarize_fields("t  u", None, Some("r")), "t u");
    assert_eq!(summarize_fields("", Some("m"), None), "<empty response body>");
}

#[test]
fn long_lines_are_cut_at_a_character_boundary() {
    assert_eq!(truncate_one_line("abcdef", 6), "abcdef");
    assert_eq!(truncate_one_line("abcdefg", 6), "abcdef...");
    assert_eq!(truncate_one_line("ab\u{4e2d}\u{6587}", 6), "ab\u{4e2d}...");
    assert_eq!(truncate_one_line("\u{4e2d}\u{6587}", 2), "...");
    assert_eq!(truncate_one_line("\u{1f600}\u{1f600}", 7), "\u{1f600}...");
    assert_eq!(truncate_one_line("  a \u{a0} b\n", 10), "a b");
}

#[test]
fn every_summary_is_short_and_on_one_line() {
    let bodies = [
        "y\n".repeat(500),
        format!(r#"{{"message":"{}","reason":"R"}}"#, "\u{4e2d} ".repeat(300)),
        String::from("\u{2003}"),
        "\u{e9}".repeat(129),
    ];
    for body in bodies.iter() {
        let summary = summarize_error_body(body);
        assert!(summary.len() <= 259);
        assert!(summary.chars().all(|c| !c.is_whitespace() || c == ' '));
    }
}
