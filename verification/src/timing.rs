//! Spans of time, the waits between attempts, and points in time.
use crate::chance::Draw;
use vstd::prelude::*;

verus! {

pub const NANOS_PER_SEC: u32 = 1_000_000_000;

/// The shortest cooldown after a rate limit, in seconds.
pub const DEFAULT_RATE_LIMIT_COOLDOWN_SECS: u64 = 60;

/// The longest cooldown after a rate limit, in seconds: an odd `Retry-After` must not keep a
/// credential out for longer.
pub const MAX_RATE_LIMIT_COOLDOWN_SECS: u64 = 300;

/// The first wait between attempts, in milliseconds, without jitter.
pub const BACKOFF_BASE_MS: u64 = 200;

/// The longest wait between attempts, in milliseconds, without jitter.
pub const BACKOFF_MAX_MS: u64 = 2_000;

/// A span of time: whole seconds and the nanoseconds beyond them.
#[derive(Clone, Copy, Debug, PartialEq, Eq, Structural)]
pub struct TimeSpan {
    pub secs: u64,
    pub nanos: u32,
}

impl TimeSpan {
    /// The nanoseconds stay below one second.
    pub open spec fn wf(self) -> bool {
        self.nanos < NANOS_PER_SEC
    }

    /// The whole span in nanoseconds.
    pub open spec fn total_nanos(self) -> int {
        self.secs * NANOS_PER_SEC + self.nanos
    }

    /// A span of whole seconds.
    pub fn from_secs(secs: u64) -> (r: TimeSpan)
        ensures
            r == (TimeSpan { secs, nanos: 0 }),
            r.wf(),
    {
        TimeSpan { secs, nanos: 0 }
    }

    /// A span of milliseconds.
    pub fn from_millis(millis: u64) -> (r: TimeSpan)
        ensures
            r.wf(),
            r.total_nanos() == millis * 1_000_000,
    {
        let nanos: u32 = (millis % 1_000) as u32 * 1_000_000;
        TimeSpan { secs: millis / 1_000, nanos }
    }
}

/// `span` moved to the nearest end of the range of cooldowns, if it is outside.
pub open spec fn clamped(span: TimeSpan) -> TimeSpan {
    if span.total_nanos() < DEFAULT_RATE_LIMIT_COOLDOWN_SECS * NANOS_PER_SEC {
        TimeSpan { secs: DEFAULT_RATE_LIMIT_COOLDOWN_SECS, nanos: 0 }
    } else if span.total_nanos() > MAX_RATE_LIMIT_COOLDOWN_SECS * NANOS_PER_SEC {
        TimeSpan { secs: MAX_RATE_LIMIT_COOLDOWN_SECS, nanos: 0 }
    } else {
        span
    }
}

/// Keeps a cooldown after a rate limit within its range.
pub fn clamp_rate_limit_cooldown(span: TimeSpan) -> (r: TimeSpan)
    requires
        span.wf(),
    ensures
        r == clamped(span),
        r.wf(),
{
    if span.secs < DEFAULT_RATE_LIMIT_COOLDOWN_SECS {
        TimeSpan::from_secs(DEFAULT_RATE_LIMIT_COOLDOWN_SECS)
    } else if span.secs > MAX_RATE_LIMIT_COOLDOWN_SECS || (span.secs == MAX_RATE_LIMIT_COOLDOWN_SECS
        && span.nanos > 0) {
        TimeSpan::from_secs(MAX_RATE_LIMIT_COOLDOWN_SECS)
    } else {
        span
    }
}

/// A cooldown is never shorter than the default nor longer than the maximum, a span within the
/// range is kept as it is, and clamping twice changes nothing more.
pub proof fn law_cooldown_range(span: TimeSpan)
    requires
        span.wf(),
    ensures
        DEFAULT_RATE_LIMIT_COOLDOWN_SECS * NANOS_PER_SEC <= clamped(span).total_nanos()
            <= MAX_RATE_LIMIT_COOLDOWN_SECS * NANOS_PER_SEC,
        DEFAULT_RATE_LIMIT_COOLDOWN_SECS * NANOS_PER_SEC <= span.total_nanos()
            <= MAX_RATE_LIMIT_COOLDOWN_SECS * NANOS_PER_SEC ==> clamped(span) == span,
        clamped(clamped(span)) == clamped(span),
{
}

// ---------------------------------------------------------------------------------------------
// Waits between attempts
// ---------------------------------------------------------------------------------------------

/// The wait after the attempt with this number, in milliseconds, without jitter: it doubles from
/// attempt to attempt up to the maximum.
pub open spec fn backoff_ms(attempt: nat) -> nat {
    let exponent = if attempt < 6 {
        attempt
    } else {
        6
    };
    let grown = BACKOFF_BASE_MS as nat * vstd::arithmetic::power2::pow2(exponent);
    if grown < BACKOFF_MAX_MS {
        grown
    } else {
        BACKOFF_MAX_MS as nat
    }
}

/// The most jitter that is added to that wait, in milliseconds: a quarter of it, and at least one.
pub open spec fn jitter_limit_ms(attempt: nat) -> nat {
    if backoff_ms(attempt) / 4 < 1 {
        1
    } else {
        backoff_ms(attempt) / 4
    }
}

fn backoff(attempt: usize) -> (r: u64)
    ensures
        r == backoff_ms(attempt as nat),
        r <= BACKOFF_MAX_MS,
{
    let exponent: usize = if attempt < 6 {
        attempt
    } else {
        6
    };
    let mut grown: u64 = BACKOFF_BASE_MS;
    let mut k: usize = 0;
    proof {
        vstd::arithmetic::power2::lemma2_to64();
    }
    while k < exponent
        invariant
            k <= exponent <= 6,
            grown == BACKOFF_BASE_MS * vstd::arithmetic::power2::pow2(k as nat),
            vstd::arithmetic::power2::pow2(0) == 1,
            vstd::arithmetic::power2::pow2(1) == 2,
            vstd::arithmetic::power2::pow2(2) == 4,
            vstd::arithmetic::power2::pow2(3) == 8,
            vstd::arithmetic::power2::pow2(4) == 16,
            vstd::arithmetic::power2::pow2(5) == 32,
            vstd::arithmetic::power2::pow2(6) == 64,
        decreases exponent - k,
    {
        grown = grown * 2;
        k += 1;
    }
    if grown < BACKOFF_MAX_MS {
        grown
    } else {
        BACKOFF_MAX_MS
    }
}

/// `fastrand::u64` over the range `0..=max`: some number in that range. Which one is left to
/// chance.
#[verifier::external_body]
pub(crate) fn random_at_most(max: u64) -> (r: u64)
    ensures
        r <= max,
{
    fastrand::u64(0..=max)
}

/// The wait after an attempt, with this much jitter.
pub fn delay_with_jitter(attempt: usize, jitter_ms: u64) -> (r: TimeSpan)
    ensures
        r.wf(),
        r.total_nanos() == 1_000_000 * if backoff_ms(attempt as nat) + jitter_ms <= u64::MAX {
            backoff_ms(attempt as nat) + jitter_ms
        } else {
            u64::MAX as int
        },
{
    TimeSpan::from_millis(backoff(attempt).saturating_add(jitter_ms))
}

/// How long to wait after the attempt with this number: exponential backoff with a little
/// jitter, so that a shaky upstream is not hit by everyone at once. The jitter is a whole number
/// of milliseconds up to its limit; which one is left to chance.
pub fn retry_delay(attempt: usize) -> (r: TimeSpan)
    ensures
        r.wf(),
        1_000_000 * backoff_ms(attempt as nat) <= r.total_nanos() <= 1_000_000 * (backoff_ms(
            attempt as nat,
        ) + jitter_limit_ms(attempt as nat)),
        r.total_nanos() % 1_000_000 == 0,
        exists|draw: Draw|
            draw.limit() == jitter_limit_ms(attempt as nat) && r.total_nanos() == 1_000_000 * (
            backoff_ms(attempt as nat) + #[trigger] draw.number()),
{
    let base: u64 = backoff(attempt);
    let limit: u64 = if base / 4 < 1 {
        1
    } else {
        base / 4
    };
    let draw = Draw::up_to(limit);
    delay_with_jitter(attempt, draw.amount())
}

/// The wait never shrinks from one attempt to the next, and stays between the base and the
/// maximum; what jitter may add is at most a quarter of the wait.
pub proof fn law_backoff(attempt: nat)
    ensures
        BACKOFF_BASE_MS <= backoff_ms(attempt) <= BACKOFF_MAX_MS,
        backoff_ms(attempt) <= backoff_ms(attempt + 1),
        4 * jitter_limit_ms(attempt) <= backoff_ms(attempt),
{
    vstd::arithmetic::power2::lemma2_to64();
    assert(attempt == 0 || attempt == 1 || attempt == 2 || attempt == 3 || attempt == 4 || attempt
        == 5 || attempt >= 6);
}

// ---------------------------------------------------------------------------------------------
// Points in time
// ---------------------------------------------------------------------------------------------

/// The first second that a calendar date can be given for.
pub const FIRST_SECOND: i64 = -8_334_601_228_800;

/// The last second that a calendar date can be given for.
pub const LAST_SECOND: i64 = 8_210_266_876_799;

pub const SECS_PER_DAY: i64 = 86_400;

/// A point in time: seconds since 1970 in UTC, and the nanoseconds beyond them. In a leap second
/// the nanoseconds go on past one second.
#[derive(Clone, Copy, Debug, PartialEq, Eq, Structural)]
pub struct Timestamp {
    pub secs: i64,
    pub nanos: u32,
}

impl Timestamp {
    /// A calendar date can be given for it, and it is a leap second only at the end of a minute.
    pub open spec fn wf(self) -> bool {
        &&& FIRST_SECOND <= self.secs <= LAST_SECOND
        &&& self.nanos < NANOS_PER_SEC || (self.nanos < 2 * NANOS_PER_SEC && self.secs as int % 60
            == 59)
    }
}

/// The nanoseconds from `now` to `at`, negative if `at` is past. A leap second counts once it
/// lies between the two times of day.
pub open spec fn nanos_until(at: Timestamp, now: Timestamp) -> int {
    let at_of_day = at.secs as int % SECS_PER_DAY as int;
    let now_of_day = now.secs as int % SECS_PER_DAY as int;
    let leap: int = if at_of_day > now_of_day && now.nanos >= NANOS_PER_SEC {
        1
    } else if at_of_day < now_of_day && at.nanos >= NANOS_PER_SEC {
        -1
    } else {
        0
    };
    (at.secs - now.secs + leap) * NANOS_PER_SEC + (at.nanos - now.nanos)
}

/// `DateTime::signed_duration_since` followed by `TimeDelta::to_std`, on UTC times of `chrono`:
/// the span from `now` to `at`, or nothing if `at` is past.
#[verifier::external_body]
pub(crate) fn span_until(at: Timestamp, now: Timestamp) -> (r: Option<TimeSpan>)
    requires
        at.wf(),
        now.wf(),
    ensures
        match r {
            Some(span) => span.wf() && span.total_nanos() == nanos_until(at, now),
            None => nanos_until(at, now) < 0,
        },
{
    let at = chrono::DateTime::<chrono::Utc>::from_timestamp(at.secs, at.nanos)?;
    let now = chrono::DateTime::<chrono::Utc>::from_timestamp(now.secs, now.nanos)?;
    let span = at.signed_duration_since(now).to_std().ok()?;
    Some(TimeSpan { secs: span.as_secs(), nanos: span.subsec_nanos() })
}

/// What `chrono` reads in a date in the form of RFC 2822, as a time in UTC.
pub uninterp spec fn rfc2822_instant(text: Seq<char>) -> Option<Timestamp>;

/// `DateTime::parse_from_rfc2822` of `chrono`, turned to UTC. Which texts are dates, and which
/// time each of them is, is the name `rfc2822_instant`; a time that comes out is one that a
/// calendar date can be given for.
#[verifier::external_body]
pub(crate) fn parse_rfc2822(text: &str) -> (r: Option<Timestamp>)
    ensures
        r == rfc2822_instant(text@),
        r matches Some(at) ==> at.wf(),
{
    let at = chrono::DateTime::parse_from_rfc2822(text).ok()?.with_timezone(&chrono::Utc);
    Some(Timestamp { secs: at.timestamp(), nanos: at.timestamp_subsec_nanos() })
}

/// A time that the clock has shown. Only the clock gives one out: a contract that speaks of a reading
/// speaks of one that was taken.
pub struct ClockReading {
    shown: Timestamp,
}

impl View for ClockReading {
    type V = Timestamp;

    closed spec fn view(&self) -> Timestamp {
        self.shown
    }
}

impl ClockReading {
    /// The time that was shown.
    pub fn time(&self) -> (r: Timestamp)
        ensures
            r == self@,
    {
        self.shown
    }
}

/// `Utc::now` of `chrono`: the time on the clock. Which time that is is left to the clock.
#[verifier::external_body]
pub(crate) fn utc_now() -> (r: ClockReading)
    ensures
        r@.wf(),
        r@.nanos < NANOS_PER_SEC,
{
    let now = chrono::Utc::now();
    ClockReading {
        shown: Timestamp { secs: now.timestamp(), nanos: now.timestamp_subsec_nanos() },
    }
}

// ---------------------------------------------------------------------------------------------
// What cooldowns and waits are for
// ---------------------------------------------------------------------------------------------

/// A cooldown of less than a minute becomes one minute, one of more than five minutes becomes five,
/// and every other is kept to the nanosecond.
pub proof fn law_cooldowns(span: TimeSpan)
    requires
        span.wf(),
    ensures
        clamped(span).wf(),
        span.secs < 60 ==> clamped(span).secs == 60 && clamped(span).nanos == 0,
        60 <= span.secs < 300 ==> clamped(span) == span,
        span.secs >= 300 ==> clamped(span).secs == 300 && clamped(span).nanos == 0,
{
}

/// The first wait is 200 milliseconds, and each further one is twice the one before, up to two
/// seconds. Jitter adds at most a quarter of the wait.
pub proof fn law_waits_double(attempt: nat)
    ensures
        backoff_ms(0) == 200,
        backoff_ms(attempt + 1) == if 2 * backoff_ms(attempt) <= 2_000 {
            2 * backoff_ms(attempt)
        } else {
            2_000
        },
        4 * jitter_limit_ms(attempt) <= backoff_ms(attempt) < 4 * jitter_limit_ms(attempt) + 4,
{
    vstd::arithmetic::power2::lemma2_to64();
    law_backoff(attempt);
    assert(attempt == 0 || attempt == 1 || attempt == 2 || attempt == 3 || attempt == 4 || attempt
        == 5 || attempt >= 6);
}

/// Between two times outside leap seconds lies the difference of the two, in nanoseconds. A leap
/// second whose time of day is before that of the clock is one second less far off.
pub proof fn law_time_between(at: Timestamp, now: Timestamp)
    requires
        now.nanos < NANOS_PER_SEC,
    ensures
        at.nanos < NANOS_PER_SEC ==> nanos_until(at, now) == (at.secs * 1_000_000_000 + at.nanos) - (
        now.secs * 1_000_000_000 + now.nanos),
        at.nanos >= NANOS_PER_SEC ==> nanos_until(at, now) == (at.secs * 1_000_000_000 + at.nanos)
            - (now.secs * 1_000_000_000 + now.nanos) - if at.secs as int % 86_400
            < now.secs as int % 86_400 {
            1_000_000_000int
        } else {
            0
        },
{
}

} // verus!
