//! The `Retry-After` header of a response.
use crate::text;
use crate::timing;
use crate::timing::ClockReading;
use crate::timing::TimeSpan;
use crate::timing::Timestamp;
use reqwest::header::HeaderMap;
use reqwest::header::HeaderValue;
use vstd::prelude::*;

verus! {

#[verifier::external_type_specification]
#[verifier::external_body]
#[verifier::reject_recursive_types(T)]
pub struct ExHeaderMap<T>(reqwest::header::HeaderMap<T>);

#[verifier::external_type_specification]
#[verifier::external_body]
pub struct ExHeaderValue(reqwest::header::HeaderValue);

/// What a header map holds: for each field name, in lower case, the bytes of its first value.
pub uninterp spec fn header_fields(headers: HeaderMap<HeaderValue>) -> Map<Seq<char>, Seq<u8>>;

/// The bytes of a header value.
pub uninterp spec fn header_bytes(value: HeaderValue) -> Seq<u8>;

/// A field name in lower case: letters and hyphens.
pub open spec fn is_field_name(name: Seq<char>) -> bool {
    &&& 0 < name.len() < 64
    &&& forall|i: int| 0 <= i < name.len() ==> 'a' <= #[trigger] name[i] <= 'z' || name[i] == '-'
}

/// `HeaderMap::get`: the first value of the field with this name, if the map has one.
#[verifier::external_body]
fn first_value<'a>(headers: &'a HeaderMap<HeaderValue>, name: &str) -> (r: Option<&'a HeaderValue>)
    requires
        is_field_name(name@),
    ensures
        match r {
            Some(value) => header_fields(*headers).contains_key(name@) && header_bytes(*value)
                == header_fields(*headers)[name@],
            None => !header_fields(*headers).contains_key(name@),
        },
{
    headers.get(name)
}

/// A printable ASCII character, or a tab.
pub open spec fn is_visible(b: u8) -> bool {
    32 <= b < 127 || b == 9
}

/// The text of a header value: its bytes as characters, if all of them are visible ASCII.
pub open spec fn visible_text(bytes: Seq<u8>) -> Option<Seq<char>> {
    if forall|i: int| 0 <= i < bytes.len() ==> is_visible(#[trigger] bytes[i]) {
        Some(Seq::new(bytes.len(), |i: int| bytes[i] as char))
    } else {
        None
    }
}

/// `HeaderValue::to_str`: the text of the value, if it only has visible ASCII characters.
#[verifier::external_body]
fn value_text<'a>(value: &'a HeaderValue) -> (r: Option<&'a str>)
    ensures
        match r {
            Some(s) => visible_text(header_bytes(*value)) == Some(s@),
            None => visible_text(header_bytes(*value)) is None,
        },
{
    value.to_str().ok()
}

/// The text of the `Retry-After` field, without white space at its ends.
pub open spec fn retry_after_text(headers: HeaderMap<HeaderValue>) -> Option<Seq<char>> {
    if header_fields(headers).contains_key("retry-after"@) {
        match visible_text(header_fields(headers)["retry-after"@]) {
            Some(s) => Some(text::trimmed(s)),
            None => None,
        }
    } else {
        None
    }
}

/// The cooldown until `at`, seen from `now`: none if `at` is past.
pub open spec fn cooldown_until(at: Timestamp, now: Timestamp) -> Option<TimeSpan> {
    let n = timing::nanos_until(at, now);
    if n < 0 {
        None
    } else {
        Some(
            timing::clamped(
                TimeSpan {
                    secs: (n / timing::NANOS_PER_SEC as int) as u64,
                    nanos: (n % timing::NANOS_PER_SEC as int) as u32,
                },
            ),
        )
    }
}

/// The cooldown until `at`, seen from `now`: none if `at` is past.
pub fn wait_until(at: Timestamp, now: Timestamp) -> (r: Option<TimeSpan>)
    requires
        at.wf(),
        now.wf(),
    ensures
        r == cooldown_until(at, now),
{
    match timing::span_until(at, now) {
        Some(span) => {
            proof {
                let n = timing::nanos_until(at, now);
                assert(n == span.secs * 1_000_000_000 + span.nanos);
                assert(n / 1_000_000_000 == span.secs as int);
                assert(n % 1_000_000_000 == span.nanos as int);
            }
            Some(timing::clamp_rate_limit_cooldown(span))
        },
        None => None,
    }
}

/// The cooldown that the field text `s` asks for at the time `now`: a number of seconds is clamped,
/// a date gives the cooldown from `now` to the date, and anything else gives none.
pub open spec fn cooldown_asked(s: Seq<char>, now: Timestamp) -> Option<TimeSpan> {
    match text::spelled_u64(s) {
        Some(secs) => Some(timing::clamped(TimeSpan { secs, nanos: 0 })),
        None => match timing::rfc2822_instant(s) {
            Some(at) => cooldown_until(at, now),
            None => None,
        },
    }
}

/// The cooldown that the `Retry-After` field asks for at the time `now`.
pub open spec fn retry_after_due(headers: HeaderMap<HeaderValue>, now: Timestamp) -> Option<
    TimeSpan,
> {
    match retry_after_text(headers) {
        Some(s) => if s.len() == 0 {
            None
        } else {
            cooldown_asked(s, now)
        },
        None => None,
    }
}

/// What may come out of the field text `s`: a number of seconds is clamped, a date gives the
/// cooldown from a time that the clock has shown, and anything else gives none.
pub open spec fn retry_after_outcome(s: Seq<char>, r: Option<TimeSpan>) -> bool {
    match text::spelled_u64(s) {
        Some(secs) => r == Some(timing::clamped(TimeSpan { secs, nanos: 0 })),
        None => match timing::rfc2822_instant(s) {
            Some(at) => exists|now: ClockReading|
                now@.wf() && now@.nanos < timing::NANOS_PER_SEC && r == #[trigger] cooldown_until(
                    at,
                    now@,
                ),
            None => r is None,
        },
    }
}

/// Reads the `Retry-After` field: seconds or an HTTP date. The cooldown is kept within its range.
/// There is none without the field, or if its text is empty, neither of the two, or a date that
/// is past. A date is measured from a reading of the clock, which makes no difference otherwise.
pub fn parse_retry_after(headers: &HeaderMap<HeaderValue>) -> (r: Option<TimeSpan>)
    ensures
        match retry_after_text(*headers) {
            Some(s) => if s.len() == 0 {
                r is None
            } else {
                retry_after_outcome(s, r)
            },
            None => r is None,
        },
        r matches Some(span) ==> span.wf() && timing::DEFAULT_RATE_LIMIT_COOLDOWN_SECS
            * timing::NANOS_PER_SEC <= span.total_nanos() <= timing::MAX_RATE_LIMIT_COOLDOWN_SECS
            * timing::NANOS_PER_SEC,
        (exists|now: ClockReading|
            now@.wf() && r == #[trigger] retry_after_due(*headers, now@)) || (forall|
            now: Timestamp,
        |
            r == #[trigger] retry_after_due(*headers, now)),
{
    proof {
        reveal_strlit("retry-after");
    }
    let raw = match first_value(headers, "retry-after") {
        Some(value) => match value_text(value) {
            Some(s) => text::trim(s),
            None => return None,
        },
        None => return None,
    };
    if raw.is_empty() {
        return None;
    }
    match text::parse_u64(raw) {
        Some(secs) => return Some(timing::clamp_rate_limit_cooldown(TimeSpan::from_secs(secs))),
        None => {},
    }
    match timing::parse_rfc2822(raw) {
        Some(at) => {
            let now = timing::utc_now();
            let r = wait_until(at, now.time());
            assert(r == retry_after_due(*headers, now@));
            r
        },
        None => None,
    }
}

// ---------------------------------------------------------------------------------------------
// What the field is for
// ---------------------------------------------------------------------------------------------

/// The text `s` in bytes: printable ASCII and tabs, one byte for each character.
pub open spec fn plain_bytes(s: Seq<char>, bytes: Seq<u8>) -> bool {
    &&& bytes.len() == s.len()
    &&& forall|i: int|
        0 <= i < s.len() ==> (#[trigger] s[i]) as int == bytes[i] as int && (32 <= bytes[i] <= 126
            || bytes[i] == 9)
}

proof fn lemma_plain_bytes(s: Seq<char>, bytes: Seq<u8>)
    requires
        plain_bytes(s, bytes),
    ensures
        visible_text(bytes) == Some(s),
{
    assert forall|i: int| 0 <= i < bytes.len() implies is_visible(#[trigger] bytes[i]) by {
        assert(s[i] as int == bytes[i] as int);
    }
    let t = Seq::new(bytes.len(), |i: int| bytes[i] as char);
    assert forall|i: int| 0 <= i < s.len() implies t[i] == s[i] by {
        assert(s[i] as int == bytes[i] as int);
    }
    assert(t =~= s);
}

/// Seconds in the field, with or without a sign, zeros or white space around them, are the cooldown:
/// as they are from one minute to five, and otherwise the nearer of these two. The time on the clock
/// makes no difference.
pub proof fn law_seconds_are_the_cooldown(
    headers: HeaderMap<HeaderValue>,
    now: Timestamp,
    before: Seq<char>,
    plus: bool,
    zeros: nat,
    secs: u64,
    after: Seq<char>,
)
    requires
        text::blank(before),
        text::blank(after),
        header_fields(headers).contains_key("retry-after"@),
        plain_bytes(
            before + text::spelling(plus, zeros, secs as nat) + after,
            header_fields(headers)["retry-after"@],
        ),
    ensures
        retry_after_due(headers, now) == Some(
            TimeSpan {
                secs: if secs < 60 {
                    60
                } else if secs > 300 {
                    300
                } else {
                    secs
                },
                nanos: 0,
            },
        ),
{
    let number = text::spelling(plus, zeros, secs as nat);
    lemma_plain_bytes(before + number + after, header_fields(headers)["retry-after"@]);
    text::law_numbers_are_read(plus, zeros, secs as nat);
    text::lemma_spelling_ends(plus, zeros, secs as nat);
    text::law_trim_takes_blank_ends(before, number, after);
    timing::law_cooldowns(TimeSpan { secs, nanos: 0 });
}

/// A date in the field gives the cooldown from the time on the clock to the date, to the
/// nanosecond: as it is from one minute to five, and otherwise the nearer of these two. A date that
/// is past gives none. A leap second whose time of day is before that of the clock is one second less
/// far off.
pub proof fn law_dates_are_measured_from_the_clock(
    headers: HeaderMap<HeaderValue>,
    now: Timestamp,
    before: Seq<char>,
    date: Seq<char>,
    after: Seq<char>,
    at: Timestamp,
)
    requires
        now.wf(),
        now.nanos < 1_000_000_000,
        at.wf(),
        text::blank(before),
        text::blank(after),
        date.len() > 0,
        !text::is_space(date[0]),
        !text::is_space(date.last()),
        text::spelled_u64(date) is None,
        timing::rfc2822_instant(date) == Some(at),
        header_fields(headers).contains_key("retry-after"@),
        plain_bytes(before + date + after, header_fields(headers)["retry-after"@]),
    ensures
        ({
            let leap = if at.nanos >= 1_000_000_000 && at.secs as int % 86_400 < now.secs as int
                % 86_400 {
                1int
            } else {
                0
            };
            let wait = (at.secs - now.secs - leap) * 1_000_000_000 + (at.nanos - now.nanos);
            let due = retry_after_due(headers, now);
            &&& wait < 0 <==> due is None
            &&& due matches Some(span) ==> span.nanos < 1_000_000_000 && span.secs * 1_000_000_000
                + span.nanos == if wait < 60_000_000_000 {
                60_000_000_000
            } else if wait > 300_000_000_000 {
                300_000_000_000
            } else {
                wait
            }
        }),
{
    lemma_plain_bytes(before + date + after, header_fields(headers)["retry-after"@]);
    text::law_trim_takes_blank_ends(before, date, after);
    law_cooldown_until(at, now);
    timing::law_time_between(at, now);
}

/// The cooldown until a time is what is left until then, from one minute to five, and none once that
/// time is past.
pub proof fn law_cooldown_until(at: Timestamp, now: Timestamp)
    requires
        at.wf(),
        now.wf(),
    ensures
        ({
            let n = timing::nanos_until(at, now);
            &&& n < 0 <==> cooldown_until(at, now) is None
            &&& cooldown_until(at, now) matches Some(span) ==> span.wf() && span.total_nanos()
                == if n < 60_000_000_000 {
                60_000_000_000
            } else if n > 300_000_000_000 {
                300_000_000_000
            } else {
                n
            }
        }),
{
    let n = timing::nanos_until(at, now);
    if n >= 0 {
        assert(n / 1_000_000_000 <= u64::MAX);
        assert(n == (n / 1_000_000_000) * 1_000_000_000 + n % 1_000_000_000);
    }
}

/// The later the clock, the shorter the cooldown.
pub proof fn law_later_clocks_wait_less(at: Timestamp, now: Timestamp, later: Timestamp)
    requires
        at.wf(),
        now.wf(),
        later.wf(),
        timing::nanos_until(at, later) <= timing::nanos_until(at, now),
    ensures
        cooldown_until(at, now) is None ==> cooldown_until(at, later) is None,
        cooldown_until(at, later) matches Some(short) ==> (cooldown_until(
            at,
            now,
        ) matches Some(long) && 60_000_000_000 <= short.total_nanos() <= long.total_nanos()
            <= 300_000_000_000),
{
    law_cooldown_until(at, now);
    law_cooldown_until(at, later);
}

/// There is no cooldown without the field, with a field that is not plain text or is blank, and with
/// one that is neither a number nor a date.
pub proof fn law_no_cooldown(headers: HeaderMap<HeaderValue>, now: Timestamp, s: Seq<char>)
    ensures
        !header_fields(headers).contains_key("retry-after"@) ==> retry_after_due(headers, now)
            is None,
        header_fields(headers).contains_key("retry-after"@) && (exists|i: int|
            0 <= i < header_fields(headers)["retry-after"@].len() && {
                let b = #[trigger] header_fields(headers)["retry-after"@][i];
                (b < 32 || b > 126) && b != 9
            }) ==> retry_after_due(headers, now) is None,
        header_fields(headers).contains_key("retry-after"@) && plain_bytes(
            s,
            header_fields(headers)["retry-after"@],
        ) && (text::blank(s) || (text::spelled_u64(text::trimmed(s)) is None
            && timing::rfc2822_instant(text::trimmed(s)) is None)) ==> retry_after_due(headers, now)
            is None,
{
    if header_fields(headers).contains_key("retry-after"@) {
        let bytes = header_fields(headers)["retry-after"@];
        if exists|i: int| 0 <= i < bytes.len() && !is_visible(#[trigger] bytes[i]) {
            assert(visible_text(bytes) is None);
        }
        if plain_bytes(s, bytes) {
            lemma_plain_bytes(s, bytes);
            if text::blank(s) {
                text::lemma_trimmed_blank(s);
            }
        }
    }
}

} // verus!
