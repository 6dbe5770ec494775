use kiro_provider::retry_after::parse_retry_after;
use kiro_provider::retry_after::wait_until;
use kiro_provider::timing::clamp_rate_limit_cooldown;
use kiro_provider::timing::delay_with_jitter;
use kiro_provider::timing::retry_delay;
use kiro_provider::timing::TimeSpan;
use kiro_provider::timing::Timestamp;
use kiro_provider::timing::FIRST_SECOND;
use kiro_provider::timing::LAST_SECOND;
use reqwest::header::HeaderMap;
use reqwest::header::HeaderValue;

fn nanos(span: TimeSpan) -> u128 {
    span.secs as u128 * 1_000_000_000 + span.nanos as u128
}

#[test]
fn test_parse_retry_after_seconds() {
    let mut headers = HeaderMap::new();
    headers.insert("retry-after", HeaderValue::from_static("120"));

    let wait = parse_retry_after(&headers).unwrap();
    assert_eq!(wait, TimeSpan::from_secs(120));
}

#[test]
fn test_parse_retry_after_http_date() {
    let mut headers = HeaderMap::new();
    let future = (chrono::Utc::now() + chrono::Duration::seconds(90)).to_rfc2822();
    headers.insert("retry-after", HeaderValue::from_str(&future).unwrap());

    let wait = parse_retry_after(&headers).unwrap();
    assert!(nanos(wait) >= nanos(TimeSpan::from_secs(60)));
    assert!(nanos(wait) <= nanos(TimeSpan::from_secs(120)));
}

#[test]
fn test_parse_retry_after_invalid() {
    let mut headers = HeaderMap::new();
    headers.insert("retry-after", HeaderValue::from_static("not-a-date"));

    assert!(parse_retry_after(&headers).is_none());
}

#[test]
fn test_parse_retry_after_clamps_range() {
    let mut headers = HeaderMap::new();
    headers.insert("retry-after", HeaderValue::from_static("5"));
    assert_eq!(parse_retry_after(&headers).unwrap(), TimeSpan::from_secs(60));

    headers.insert("retry-after", HeaderValue::from_static("600"));
    assert_eq!(parse_retry_after(&headers).unwrap(), TimeSpan::from_secs(300));
}

#[test]
fn retry_after_is_missing_empty_or_not_text() {
    let mut headers = HeaderMap::new();
    assert!(parse_retry_after(&headers).is_none());
    headers.insert("retry-before", HeaderValue::from_static("120"));
    assert!(parse_retry_after(&headers).is_none());
    headers.insert("retry-after", HeaderValue::from_static("  \t "));
    assert!(parse_retry_after(&headers).is_none());
    headers.insert("retry-after", HeaderValue::from_bytes(b"12\xe9").unwrap());
    assert!(parse_retry_after(&headers).is_none());
}

#[test]
fn retry_after_is_trimmed_and_the_first_value_counts() {
    let mut headers = HeaderMap::new();
    headers.append("Retry-After", HeaderValue::from_static(" +90 "));
    headers.append("retry-after", HeaderValue::from_static("120"));
    assert_eq!(parse_retry_after(&headers), Some(TimeSpan::from_secs(90)));
}

#[test]
fn retry_after_date_that_is_past() {
    let mut headers = HeaderMap::new();
    headers.insert("retry-after", HeaderValue::from_static("Wed, 18 Feb 2015 23:16:09 GMT"));
    assert!(parse_retry_after(&headers).is_none());
}

#[test]
fn retry_after_date_far_ahead_is_clamped() {
    let mut headers = HeaderMap::new();
    headers.insert("retry-after", HeaderValue::from_static("Fri, 01 Jan 9999 00:00:00 +0100"));
    assert_eq!(parse_retry_after(&headers), Some(TimeSpan::from_secs(300)));
}

#[test]
fn wait_between_two_times() {
    let now = Timestamp { secs: 1_000, nanos: 500 };
    let later = Timestamp { secs: 1_100, nanos: 200 };
    assert_eq!(
        wait_until(later, now),
        Some(TimeSpan { secs: 99, nanos: 999_999_700 })
    );
    assert_eq!(wait_until(now, later), None);
    assert_eq!(wait_until(now, now), Some(TimeSpan::from_secs(60)));
    assert_eq!(
        wait_until(Timestamp { secs: 1_300, nanos: 501 }, now),
        Some(TimeSpan::from_secs(300))
    );
}

#[test]
fn wait_over_a_leap_second() {
    let leap = Timestamp { secs: 86_399, nanos: 1_500_000_000 };
    let after = Timestamp { secs: 86_499, nanos: 0 };
    let before = Timestamp { secs: 86_299, nanos: 0 };
    assert_eq!(wait_until(after, leap), Some(TimeSpan { secs: 98, nanos: 500_000_000 }));
    assert_eq!(wait_until(leap, before), Some(TimeSpan { secs: 101, nanos: 500_000_000 }));
    let noon_leap = Timestamp { secs: 43_259, nanos: 1_000_000_000 };
    assert_eq!(
        wait_until(Timestamp { secs: 43_459, nanos: 0 }, noon_leap),
        Some(TimeSpan::from_secs(200))
    );
}

#[test]
fn calendar_range() {
    type Utc = chrono::DateTime<chrono::Utc>;
    assert_eq!(Utc::MIN_UTC.timestamp(), FIRST_SECOND);
    assert_eq!(Utc::MAX_UTC.timestamp(), LAST_SECOND);
    assert!(Utc::from_timestamp(FIRST_SECOND, 0).is_some());
    assert!(Utc::from_timestamp(FIRST_SECOND - 1, 0).is_none());
    assert!(Utc::from_timestamp(LAST_SECOND, 0).is_some());
    assert!(Utc::from_timestamp(LAST_SECOND + 1, 0).is_none());
}

#[test]
fn cooldown_stays_in_its_range() {
    let cases = [
        (TimeSpan { secs: 0, nanos: 0 }, TimeSpan { secs: 60, nanos: 0 }),
        (TimeSpan { secs: 59, nanos: 999_999_999 }, TimeSpan { secs: 60, nanos: 0 }),
        (TimeSpan { secs: 60, nanos: 1 }, TimeSpan { secs: 60, nanos: 1 }),
        (TimeSpan { secs: 300, nanos: 0 }, TimeSpan { secs: 300, nanos: 0 }),
        (TimeSpan { secs: 300, nanos: 1 }, TimeSpan { secs: 300, nanos: 0 }),
        (TimeSpan { secs: u64::MAX, nanos: 0 }, TimeSpan { secs: 300, nanos: 0 }),
    ];
    for (span, expected) in cases {
        assert_eq!(clamp_rate_limit_cooldown(span), expected);
        assert_eq!(clamp_rate_limit_cooldown(expected), expected);
    }
}

#[test]
fn backoff_doubles_up_to_its_maximum() {
    let waits = [200, 400, 800, 1_600, 2_000, 2_000, 2_000, 2_000];
    for (attempt, ms) in waits.iter().enumerate() {
        assert_eq!(delay_with_jitter(attempt, 0), TimeSpan::from_millis(*ms));
        assert_eq!(delay_with_jitter(attempt, 7), TimeSpan::from_millis(ms + 7));
    }
    assert_eq!(delay_with_jitter(usize::MAX, 0), TimeSpan { secs: 2, nanos: 0 });
    assert_eq!(delay_with_jitter(0, u64::MAX), TimeSpan::from_millis(u64::MAX));
    assert_eq!(delay_with_jitter(3, 1), TimeSpan { secs: 1, nanos: 601_000_000 });
}

#[test]
fn retry_delay_adds_at_most_a_quarter() {
    let waits = [200u128, 400, 800, 1_600, 2_000, 2_000];
    for (attempt, ms) in waits.iter().enumerate() {
        for _ in 0..200 {
            let delay = nanos(retry_delay(attempt));
            assert!(delay >= ms * 1_000_000);
            assert!(delay <= (ms + ms / 4) * 1_000_000);
        }
    }
    let first = retry_delay(5);
    assert!((0..200).any(|_| retry_delay(5) != first));
}
