use kiro_provider::request::capture_path;
use kiro_provider::request::estimate_tokens;
use kiro_provider::request::is_cjk_char;
use kiro_provider::request::truncate_body_for_log;
use std::borrow::Cow;

#[test]
fn cjk_characters() {
    for c in ['\u{4e2d}', '\u{3400}', '\u{20000}', '\u{2a700}', '\u{2b740}', '\u{f900}',
        '\u{2f800}', '\u{3002}', '\u{3042}', '\u{30a2}', '\u{ac00}', '\u{9fff}', '\u{d7af}']
    {
        assert!(is_cjk_char(c));
    }
    for c in ['a', '\u{4dff}', '\u{a000}', '\u{2fff}', '\u{3100}', '\u{2a6e0}', '\u{1f600}'] {
        assert!(!is_cjk_char(c));
    }
}

#[test]
fn tokens_follow_the_two_rates() {
    assert_eq!(estimate_tokens(""), 0);
    assert_eq!(estimate_tokens("a"), 0);
    assert_eq!(estimate_tokens("ab"), 1);
    assert_eq!(estimate_tokens("hello world"), 3);
    assert_eq!(estimate_tokens("\u{4e2d}"), 1);
    assert_eq!(estimate_tokens("\u{4e2d}\u{6587}\u{5b57}"), 2);
    assert_eq!(estimate_tokens("\u{4e2d}\u{6587}abcdefg"), 3);
}

#[test]
fn tokens_are_the_rounded_sum_of_the_rates() {
    for cjk in 0..60usize {
        for other in 0..120usize {
            let s = "\u{4e2d}".repeat(cjk) + &"x".repeat(other);
            let sum = cjk as f64 / 1.5 + other as f64 / 3.5 + 0.5;
            assert_eq!(estimate_tokens(&s), sum as usize);
        }
    }
}

#[test]
fn longer_texts_have_no_fewer_tokens() {
    let mut s = String::new();
    let mut last = 0;
    for i in 0..100 {
        s.push(if i % 3 == 0 { '\u{4e2d}' } else { 'x' });
        let now = estimate_tokens(&s);
        assert!(now >= last);
        last = now;
    }
}

#[test]
fn short_bodies_go_to_the_log_as_they_are() {
    let s = "x".repeat(50);
    assert!(matches!(truncate_body_for_log(&s, 10), Cow::Borrowed(t) if t == s));
    assert!(matches!(truncate_body_for_log("", 0), Cow::Borrowed("")));
}

#[test]
fn long_bodies_keep_their_ends() {
    let s = format!("{}{}{}", "a".repeat(10), "\u{4e2d}".repeat(31), "b".repeat(10));
    let expected = format!("{}...(93 bytes omitted)...{}", "a".repeat(10), "b".repeat(10));
    assert_eq!(truncate_body_for_log(&s, 10), expected);
    assert!(matches!(truncate_body_for_log(&s, 10), Cow::Owned(_)));
}

#[test]
fn long_bodies_may_keep_nothing() {
    assert_eq!(truncate_body_for_log(&"a".repeat(31), 0), "...(31 bytes omitted)...");
    assert!(matches!(truncate_body_for_log(&"a".repeat(30), 0), Cow::Borrowed(_)));
}

#[test]
fn captured_bodies_are_named_after_the_time() {
    assert_eq!(
        capture_path("/tmp/cap", "20260512-101112-345"),
        "/tmp/cap/gar-20260512-101112-345.json"
    );
}
