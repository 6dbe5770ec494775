//! What the body of a response says.
use crate::json;
use crate::text;
use serde_json::Value;
use vstd::prelude::*;

verus! {

// ---------------------------------------------------------------------------------------------
// Where an error body keeps its reason and its message
// ---------------------------------------------------------------------------------------------

/// The view of an optional text.
pub open spec fn opt_view(s: Option<&str>) -> Option<Seq<char>> {
    match s {
        Some(s) => Some(s@),
        None => None,
    }
}

/// Some reason in the body satisfies `test`: the one at the top or the one under `error`.
pub open spec fn some_reason(body: Seq<char>, test: spec_fn(Seq<char>) -> bool) -> bool {
    match json::json_document(body) {
        Some(texts) => {
            ||| json::text_at(texts, "/reason"@) matches Some(s) && test(s)
            ||| json::text_at(texts, "/error/reason"@) matches Some(s) && test(s)
        },
        None => false,
    }
}

// ---------------------------------------------------------------------------------------------
// Rate limits
// ---------------------------------------------------------------------------------------------

/// The text, in lower case, speaks of a rate limit.
pub open spec fn speaks_of_rate_limit(lower: Seq<char>) -> bool {
    ||| text::contains_text(lower, "rate limit"@)
    ||| text::contains_text(lower, "too many requests"@)
    ||| text::contains_text(lower, "high traffic"@)
    ||| text::contains_text(lower, "request limit"@)
}

/// A reason that names a rate limit, whatever the case of its letters.
pub open spec fn names_rate_limit(reason: Seq<char>) -> bool {
    let upper = text::raised(reason);
    ||| text::contains_text(upper, "RATE_LIMIT"@)
    ||| text::contains_text(upper, "TOO_MANY_REQUESTS"@)
    ||| text::contains_text(upper, "REQUEST_LIMIT"@)
    ||| text::contains_text(upper, "HIGH_TRAFFIC"@)
}

/// The body is that of a rate limit: its text says so, or a reason in it does.
pub open spec fn rate_limit_body(body: Seq<char>) -> bool {
    ||| speaks_of_rate_limit(text::lowered(body))
    ||| some_reason(body, |s: Seq<char>| names_rate_limit(s))
}

/// Whether a reason names a rate limit.
pub fn is_rate_limit_reason(reason: &str) -> (r: bool)
    ensures
        r == names_rate_limit(reason@),
{
    let upper = text::to_ascii_uppercase(reason);
    let upper = upper.as_str();
    text::contains(upper, "RATE_LIMIT") || text::contains(upper, "TOO_MANY_REQUESTS")
        || text::contains(upper, "REQUEST_LIMIT") || text::contains(upper, "HIGH_TRAFFIC")
}

/// Whether the body of a response is that of a rate limit.
pub fn is_rate_limit_response(body: &str) -> (r: bool)
    ensures
        r == rate_limit_body(body@),
{
    let lower = text::to_ascii_lowercase(body);
    let lower = lower.as_str();
    if text::contains(lower, "rate limit") || text::contains(lower, "too many requests")
        || text::contains(lower, "high traffic") || text::contains(lower, "request limit") {
        return true;
    }
    let value = match json::parse_json(body) {
        Some(value) => value,
        None => return false,
    };
    let top = match json::pointed_text(&value, "/reason") {
        Some(s) => is_rate_limit_reason(s),
        None => false,
    };
    top || match json::pointed_text(&value, "/error/reason") {
        Some(s) => is_rate_limit_reason(s),
        None => false,
    }
}

// ---------------------------------------------------------------------------------------------
// Marked conditions
// ---------------------------------------------------------------------------------------------

/// The body carries the mark: it contains it, or a reason in it is the mark.
pub open spec fn marked(body: Seq<char>, mark: Seq<char>) -> bool {
    ||| text::contains_text(body, mark)
    ||| some_reason(body, |s: Seq<char>| s == mark)
}

fn is_marked(body: &str, mark: &str) -> (r: bool)
    ensures
        r == marked(body@, mark@),
        r <==> {
            ||| text::contains_text(body@, mark@)
            ||| json::json_document(body@) matches Some(texts) && {
                ||| texts.contains_key("/reason"@) && texts["/reason"@] == mark@
                ||| texts.contains_key("/error/reason"@) && texts["/error/reason"@] == mark@
            }
        },
{
    if text::contains(body, mark) {
        return true;
    }
    let value = match json::parse_json(body) {
        Some(value) => value,
        None => return false,
    };
    let top = match json::pointed_text(&value, "/reason") {
        Some(s) => text::same_text(s, mark),
        None => false,
    };
    top || match json::pointed_text(&value, "/error/reason") {
        Some(s) => text::same_text(s, mark),
        None => false,
    }
}

/// Whether the body says that the model is unavailable for the moment.
pub fn is_model_temporarily_unavailable(body: &str) -> (r: bool)
    ensures
        r == marked(body@, "MODEL_TEMPORARILY_UNAVAILABLE"@),
        r <==> {
            ||| text::contains_text(body@, "MODEL_TEMPORARILY_UNAVAILABLE"@)
            ||| json::json_document(body@) matches Some(texts) && {
                ||| texts.contains_key("/reason"@) && texts["/reason"@]
                    == "MODEL_TEMPORARILY_UNAVAILABLE"@
                ||| texts.contains_key("/error/reason"@) && texts["/error/reason"@]
                    == "MODEL_TEMPORARILY_UNAVAILABLE"@
            }
        },
{
    is_marked(body, "MODEL_TEMPORARILY_UNAVAILABLE")
}

/// Whether the body says that the monthly quota is used up. This is what an endpoint goes by
/// that has no rule of its own.
pub fn default_is_monthly_request_limit(body: &str) -> (r: bool)
    ensures
        r == marked(body@, "MONTHLY_REQUEST_COUNT"@),
        r <==> {
            ||| text::contains_text(body@, "MONTHLY_REQUEST_COUNT"@)
            ||| json::json_document(body@) matches Some(texts) && {
                ||| texts.contains_key("/reason"@) && texts["/reason"@]
                    == "MONTHLY_REQUEST_COUNT"@
                ||| texts.contains_key("/error/reason"@) && texts["/error/reason"@]
                    == "MONTHLY_REQUEST_COUNT"@
            }
        },
{
    is_marked(body, "MONTHLY_REQUEST_COUNT")
}

/// Whether the body says that the bearer token is no longer valid. This is what an endpoint goes
/// by that has no rule of its own.
pub fn default_is_bearer_token_invalid(body: &str) -> (r: bool)
    ensures
        r == text::contains_text(body@, "The bearer token included in the request is invalid"@),
{
    text::contains(body, "The bearer token included in the request is invalid")
}

/// The body says that the input is too long.
pub open spec fn input_too_long_body(body: Seq<char>) -> bool {
    ||| text::contains_text(body, "CONTENT_LENGTH_EXCEEDS_THRESHOLD"@)
    ||| text::contains_text(body, "Input is too long"@)
}

/// Whether the body says that the input is too long, as in
/// `{"message":"Input is too long.","reason":"CONTENT_LENGTH_EXCEEDS_THRESHOLD"}`.
pub fn is_input_too_long(body: &str) -> (r: bool)
    ensures
        r == input_too_long_body(body@),
        r <==> text::contains_text(body@, "CONTENT_LENGTH_EXCEEDS_THRESHOLD"@)
            || text::contains_text(body@, "Input is too long"@),
{
    text::contains(body, "CONTENT_LENGTH_EXCEEDS_THRESHOLD") || text::contains(
        body,
        "Input is too long",
    )
}

// ---------------------------------------------------------------------------------------------
// Summaries
// ---------------------------------------------------------------------------------------------

/// The most bytes that a summary takes before it is cut.
pub const SUMMARY_MAX_LEN: usize = 256;

/// `s` on one line, cut to `max` bytes at a character boundary; what was cut off is marked by
/// three dots.
pub open spec fn cut_line(s: Seq<char>, max: nat) -> Seq<char> {
    let line = text::one_line(s);
    if text::byte_len(line) <= max {
        line
    } else {
        text::longest_fitting(line, max) + "..."@
    }
}

/// Puts `s` on one line and cuts it to `max_len` bytes.
pub fn truncate_one_line(s: &str, max_len: usize) -> (r: String)
    ensures
        r@ == cut_line(s@, max_len as nat),
{
    let line = text::to_one_line(s);
    if text::bytes_of(line.as_str()) <= max_len {
        return line;
    }
    let mut out = text::prefix_within(line.as_str(), max_len).to_string();
    out.append("...");
    out
}

/// The first of four texts that is there.
pub open spec fn first_of(
    a: Option<Seq<char>>,
    b: Option<Seq<char>>,
    c: Option<Seq<char>>,
    d: Option<Seq<char>>,
) -> Option<Seq<char>> {
    if a is Some {
        a
    } else if b is Some {
        b
    } else if c is Some {
        c
    } else {
        d
    }
}

/// The message of an error document, at the top or under `error`.
pub open spec fn document_message(texts: Map<Seq<char>, Seq<char>>) -> Option<Seq<char>> {
    first_of(
        json::text_at(texts, "/message"@),
        json::text_at(texts, "/Message"@),
        json::text_at(texts, "/error/message"@),
        json::text_at(texts, "/error/Message"@),
    )
}

/// The reason of an error document, at the top or under `error`.
pub open spec fn document_reason(texts: Map<Seq<char>, Seq<char>>) -> Option<Seq<char>> {
    first_of(
        json::text_at(texts, "/reason"@),
        json::text_at(texts, "/Reason"@),
        json::text_at(texts, "/error/reason"@),
        json::text_at(texts, "/error/Reason"@),
    )
}

/// A message with its reason, if there is one that says something and that the message does not
/// already contain.
pub open spec fn with_reason(message: Seq<char>, reason: Option<Seq<char>>) -> Seq<char> {
    match reason {
        Some(r) => if r.len() > 0 && r != "null"@ && !text::contains_text(message, r) {
            message + " (reason="@ + r + ")"@
        } else {
            message
        },
        None => message,
    }
}

/// The summary of a body, given what it says as a document: the message with its reason, or
/// else its text, on one line of limited length.
pub open spec fn summary_of(
    trimmed: Seq<char>,
    message: Option<Seq<char>>,
    reason: Option<Seq<char>>,
) -> Seq<char> {
    if trimmed.len() == 0 {
        "<empty response body>"@
    } else {
        match message {
            Some(m) => cut_line(with_reason(m, reason), SUMMARY_MAX_LEN as nat),
            None => cut_line(trimmed, SUMMARY_MAX_LEN as nat),
        }
    }
}

/// The summary of a body.
pub open spec fn body_summary(body: Seq<char>) -> Seq<char> {
    let t = text::trimmed(body);
    match json::json_document(t) {
        Some(texts) => summary_of(t, document_message(texts), document_reason(texts)),
        None => summary_of(t, None, None),
    }
}

/// Sums up a body from its text and from what it says as a document.
pub fn summarize_fields(trimmed: &str, message: Option<&str>, reason: Option<&str>) -> (r: String)
    ensures
        r@ == summary_of(trimmed@, opt_view(message), opt_view(reason)),
{
    if trimmed.is_empty() {
        return "<empty response body>".to_string();
    }
    match message {
        Some(m) => {
            let mut s = m.to_string();
            if let Some(r) = reason {
                if !r.is_empty() && !text::same_text(r, "null") && !text::contains(m, r) {
                    s.append(" (reason=");
                    s.append(r);
                    s.append(")");
                }
            }
            truncate_one_line(s.as_str(), SUMMARY_MAX_LEN)
        },
        None => truncate_one_line(trimmed, SUMMARY_MAX_LEN),
    }
}

/// The first of the texts at four pointers that is there.
fn first_pointed<'a>(value: &'a Value, a: &str, b: &str, c: &str, d: &str) -> (r: Option<&'a str>)
    ensures
        opt_view(r) == first_of(
            json::text_at(json::json_texts(*value), a@),
            json::text_at(json::json_texts(*value), b@),
            json::text_at(json::json_texts(*value), c@),
            json::text_at(json::json_texts(*value), d@),
        ),
{
    if let Some(s) = json::pointed_text(value, a) {
        return Some(s);
    }
    if let Some(s) = json::pointed_text(value, b) {
        return Some(s);
    }
    if let Some(s) = json::pointed_text(value, c) {
        return Some(s);
    }
    json::pointed_text(value, d)
}

/// Takes from the body of an error what is fit to be handed on: the message and its reason, or
/// else the text, on one line of limited length.
pub fn summarize_error_body(body: &str) -> (r: String)
    ensures
        r@ == body_summary(body@),
{
    let trimmed = text::trim(body);
    match json::parse_json(trimmed) {
        Some(value) => {
            let message = first_pointed(
                &value,
                "/message",
                "/Message",
                "/error/message",
                "/error/Message",
            );
            let reason = first_pointed(
                &value,
                "/reason",
                "/Reason",
                "/error/reason",
                "/error/Reason",
            );
            summarize_fields(trimmed, message, reason)
        },
        None => summarize_fields(trimmed, None, None),
    }
}

/// A cut line is on one line, and takes at most three bytes more than the limit.
pub proof fn law_cut_line(s: Seq<char>, max: nat)
    ensures
        text::on_one_line(cut_line(s, max)),
        text::byte_len(cut_line(s, max)) <= max + 3,
{
    let line = text::one_line(s);
    text::law_one_line(s);
    text::law_longest_fitting(line, max);
    reveal_strlit("...");
    vstd::utf8::is_ascii_chars_encode_utf8("..."@);
    text::lemma_byte_len_add(text::longest_fitting(line, max), "..."@);
}

/// The summary of a body is on one line and takes at most 259 bytes, whatever the body is.
pub proof fn law_summary_is_short(body: Seq<char>)
    ensures
        text::on_one_line(body_summary(body)),
        text::byte_len(body_summary(body)) <= SUMMARY_MAX_LEN + 3,
{
    let t = text::trimmed(body);
    law_cut_line(t, SUMMARY_MAX_LEN as nat);
    reveal_strlit("<empty response body>");
    vstd::utf8::is_ascii_chars_encode_utf8("<empty response body>"@);
    if let Some(texts) = json::json_document(t) {
        if let Some(m) = document_message(texts) {
            law_cut_line(with_reason(m, document_reason(texts)), SUMMARY_MAX_LEN as nat);
        }
    }
}

// ---------------------------------------------------------------------------------------------
// What the recognition of bodies is for
// ---------------------------------------------------------------------------------------------

/// A mark is found wherever it stands in the body, and however long the body is.
pub proof fn law_marks_are_found(before: Seq<char>, mark: Seq<char>, after: Seq<char>)
    ensures
        marked(before + mark + after, mark),
{
    text::law_contains_what_was_put_in(before, mark, after);
}

/// A mark is also found as the reason of a document, at the top or under `error`, and nowhere
/// else: a body in which it does not stand, and whose document gives no such reason, has no mark.
pub proof fn law_marks_are_reasons(body: Seq<char>, mark: Seq<char>)
    ensures
        json::json_document(body) matches Some(texts) && texts.contains_key("/reason"@)
            && texts["/reason"@] == mark ==> marked(body, mark),
        json::json_document(body) matches Some(texts) && texts.contains_key("/error/reason"@)
            && texts["/error/reason"@] == mark ==> marked(body, mark),
        marked(body, mark) ==> {
            ||| exists|before: Seq<char>, after: Seq<char>|
                body == #[trigger] (before + mark + after)
            ||| json::json_document(body) matches Some(texts) && {
                ||| texts.contains_key("/reason"@) && texts["/reason"@] == mark
                ||| texts.contains_key("/error/reason"@) && texts["/error/reason"@] == mark
            }
        },
{
    if text::contains_text(body, mark) {
        text::law_contains_no_more(body, mark);
    }
}

/// A request was too long if the body says so in either form, wherever in the body that stands, and
/// only then.
pub proof fn law_input_too_long(body: Seq<char>, before: Seq<char>, after: Seq<char>)
    ensures
        input_too_long_body(before + "CONTENT_LENGTH_EXCEEDS_THRESHOLD"@ + after),
        input_too_long_body(before + "Input is too long"@ + after),
        input_too_long_body(body) ==> {
            ||| exists|b: Seq<char>, a: Seq<char>|
                body == #[trigger] (b + "CONTENT_LENGTH_EXCEEDS_THRESHOLD"@ + a)
            ||| exists|b: Seq<char>, a: Seq<char>|
                body == #[trigger] (b + "Input is too long"@ + a)
        },
{
    text::law_contains_what_was_put_in(before, "CONTENT_LENGTH_EXCEEDS_THRESHOLD"@, after);
    text::law_contains_what_was_put_in(before, "Input is too long"@, after);
    if text::contains_text(body, "CONTENT_LENGTH_EXCEEDS_THRESHOLD"@) {
        text::law_contains_no_more(body, "CONTENT_LENGTH_EXCEEDS_THRESHOLD"@);
    }
    if text::contains_text(body, "Input is too long"@) {
        text::law_contains_no_more(body, "Input is too long"@);
    }
}

/// From position `i` on the text reads as the phrase does, whatever the case of its letters.
pub open spec fn said_at(text: Seq<char>, phrase: Seq<char>, i: int) -> bool {
    &&& 0 <= i <= text.len() - phrase.len()
    &&& forall|k: int|
        0 <= k < phrase.len() ==> text::same_letter(#[trigger] text[i + k], phrase[k])
}

/// The phrase stands somewhere in the text, whatever the case of its letters.
pub open spec fn says(text: Seq<char>, phrase: Seq<char>) -> bool {
    exists|i: int| said_at(text, phrase, i)
}

proof fn lemma_said_at(text: Seq<char>, same: Seq<char>, phrase: Seq<char>, i: int)
    requires
        text.len() == same.len(),
        forall|j: int, k: int|
            0 <= j < text.len() && 0 <= k < phrase.len() ==> (text::same_letter(
                #[trigger] text[j],
                #[trigger] phrase[k],
            ) <==> same[j] == phrase[k]),
    ensures
        said_at(text, phrase, i) <==> text::occurs_at(same, phrase, i),
{
    if 0 <= i <= text.len() - phrase.len() {
        let part = same.subrange(i, i + phrase.len());
        if said_at(text, phrase, i) {
            assert forall|k: int| 0 <= k < phrase.len() implies part[k] == phrase[k] by {
                assert(text::same_letter(text[i + k], phrase[k]));
            }
            assert(part =~= phrase);
        }
        if part == phrase {
            assert forall|k: int| 0 <= k < phrase.len() implies text::same_letter(
                #[trigger] text[i + k],
                phrase[k],
            ) by {
                assert(part[k] == same[i + k]);
            }
        }
    }
}

proof fn lemma_says_in_lower_case(text: Seq<char>, phrase: Seq<char>)
    requires
        forall|k: int| 0 <= k < phrase.len() ==> !('A' <= #[trigger] phrase[k] <= 'Z'),
    ensures
        says(text, phrase) <==> text::contains_text(text::lowered(text), phrase),
{
    assert forall|i: int|
        #![trigger said_at(text, phrase, i)]
        #![trigger text::occurs_at(text::lowered(text), phrase, i)]
        said_at(text, phrase, i) <==> text::occurs_at(text::lowered(text), phrase, i) by {
        lemma_said_at(text, text::lowered(text), phrase, i);
    }
}

proof fn lemma_says_in_upper_case(text: Seq<char>, phrase: Seq<char>)
    requires
        forall|k: int| 0 <= k < phrase.len() ==> !('a' <= #[trigger] phrase[k] <= 'z'),
    ensures
        says(text, phrase) <==> text::contains_text(text::raised(text), phrase),
{
    assert forall|i: int|
        #![trigger said_at(text, phrase, i)]
        #![trigger text::occurs_at(text::raised(text), phrase, i)]
        said_at(text, phrase, i) <==> text::occurs_at(text::raised(text), phrase, i) by {
        lemma_said_at(text, text::raised(text), phrase, i);
    }
}

/// One of four codes stands in the reason, whatever the case of the letters.
pub open spec fn holds_rate_limit_code(reason: Seq<char>) -> bool {
    ||| says(reason, "RATE_LIMIT"@)
    ||| says(reason, "TOO_MANY_REQUESTS"@)
    ||| says(reason, "REQUEST_LIMIT"@)
    ||| says(reason, "HIGH_TRAFFIC"@)
}

/// A reason names a rate limit if one of four codes stands in it, whatever the case of the letters.
pub proof fn law_rate_limit_reasons(reason: Seq<char>)
    ensures
        names_rate_limit(reason) <==> holds_rate_limit_code(reason),
{
    reveal_strlit("RATE_LIMIT");
    reveal_strlit("TOO_MANY_REQUESTS");
    reveal_strlit("REQUEST_LIMIT");
    reveal_strlit("HIGH_TRAFFIC");
    lemma_says_in_upper_case(reason, "RATE_LIMIT"@);
    lemma_says_in_upper_case(reason, "TOO_MANY_REQUESTS"@);
    lemma_says_in_upper_case(reason, "REQUEST_LIMIT"@);
    lemma_says_in_upper_case(reason, "HIGH_TRAFFIC"@);
}

/// A body is that of a rate limit if one of four phrases stands in it, whatever the case of the
/// letters, or if the reason of its document, at the top or under `error`, holds one of four codes.
pub proof fn law_rate_limit_bodies(body: Seq<char>)
    ensures
        rate_limit_body(body) <==> {
            ||| says(body, "rate limit"@)
            ||| says(body, "too many requests"@)
            ||| says(body, "high traffic"@)
            ||| says(body, "request limit"@)
            ||| json::json_document(body) matches Some(texts) && {
                ||| texts.contains_key("/reason"@) && holds_rate_limit_code(texts["/reason"@])
                ||| texts.contains_key("/error/reason"@) && holds_rate_limit_code(
                    texts["/error/reason"@],
                )
            }
        },
{
    reveal_strlit("rate limit");
    reveal_strlit("too many requests");
    reveal_strlit("high traffic");
    reveal_strlit("request limit");
    lemma_says_in_lower_case(body, "rate limit"@);
    lemma_says_in_lower_case(body, "too many requests"@);
    lemma_says_in_lower_case(body, "high traffic"@);
    lemma_says_in_lower_case(body, "request limit"@);
    if let Some(texts) = json::json_document(body) {
        law_rate_limit_reasons(texts["/reason"@]);
        law_rate_limit_reasons(texts["/error/reason"@]);
    }
}

// ---------------------------------------------------------------------------------------------
// What summaries are for
// ---------------------------------------------------------------------------------------------

/// A line that fits is kept as it is. Of one that does not, the beginning is kept, as much as fits
/// in whole characters, and three dots follow.
pub proof fn law_cut_line_keeps_what_fits(s: Seq<char>, max: nat)
    ensures
        ({
            let line = text::one_line(s);
            let cut = cut_line(s, max);
            &&& text::byte_len(line) <= max ==> cut == line
            &&& text::byte_len(line) > max ==> {
                let n = cut.len() - 3;
                &&& 0 <= n < line.len()
                &&& cut == line.take(n) + seq!['.', '.', '.']
                &&& text::byte_len(line.take(n)) <= max < text::byte_len(line.take(n + 1))
            }
        }),
{
    let line = text::one_line(s);
    text::law_longest_fitting(line, max);
    reveal_strlit("...");
    if text::byte_len(line) > max {
        let kept = text::longest_fitting(line, max);
        let n = kept.len() as int;
        assert(line.take(line.len() as int) =~= line);
        assert("..."@ =~= seq!['.', '.', '.']);
        assert(text::byte_len(line.take(n + 1)) > max);
    }
}

/// A body of nothing but white space is called empty, and every other body that is no document is
/// summed up by its text.
pub proof fn law_summary_of_plain_text(body: Seq<char>)
    ensures
        text::blank(body) ==> body_summary(body) == "<empty response body>"@,
        !text::blank(body) && json::json_document(text::trimmed(body)) is None ==> body_summary(body)
            == cut_line(body, 256),
{
    text::law_trim(body);
    let t = text::trimmed(body);
    let (before, after) = choose|before: Seq<char>, after: Seq<char>|
        body == #[trigger] (before + t + after) && text::blank(before) && text::blank(after);
    if t.len() > 0 {
        assert(body[before.len() as int] == t[0]);
    } else {
        assert forall|i: int| 0 <= i < body.len() implies text::is_space(#[trigger] body[i]) by {
            if i < before.len() {
                assert(text::is_space(before[i]));
            } else {
                assert(text::is_space(after[i - before.len()]));
            }
        }
    }
    if t.len() > 0 {
        text::lemma_one_line_trimmed(before, t, after);
    }
}

/// A document is summed up by its message: the first of these that is a text, `message`, `Message`,
/// and then the two under `error`. Without a message it is summed up by its text.
pub proof fn law_summary_of_a_document(body: Seq<char>, texts: Map<Seq<char>, Seq<char>>)
    requires
        !text::blank(body),
        json::json_document(text::trimmed(body)) == Some(texts),
    ensures
        ({
            let top = texts.contains_key("/message"@);
            let top_capital = texts.contains_key("/Message"@);
            let inner = texts.contains_key("/error/message"@);
            let inner_capital = texts.contains_key("/error/Message"@);
            let reason = stated_reason(texts);
            let summary = body_summary(body);
            &&& top ==> summary == cut_line(explained(texts["/message"@], reason), 256)
            &&& !top && top_capital ==> summary == cut_line(
                explained(texts["/Message"@], reason),
                256,
            )
            &&& !top && !top_capital && inner ==> summary == cut_line(
                explained(texts["/error/message"@], reason),
                256,
            )
            &&& !top && !top_capital && !inner && inner_capital ==> summary == cut_line(
                explained(texts["/error/Message"@], reason),
                256,
            )
            &&& !top && !top_capital && !inner && !inner_capital ==> summary == cut_line(body, 256)
        }),
{
    text::law_trim(body);
    let t = text::trimmed(body);
    let (before, after) = choose|before: Seq<char>, after: Seq<char>|
        body == #[trigger] (before + t + after) && text::blank(before) && text::blank(after);
    if t.len() == 0 {
        assert forall|i: int| 0 <= i < body.len() implies text::is_space(#[trigger] body[i]) by {
            if i < before.len() {
                assert(text::is_space(before[i]));
            } else {
                assert(text::is_space(after[i - before.len()]));
            }
        }
    }
    text::lemma_one_line_trimmed(before, t, after);
    if let Some(m) = document_message(texts) {
        lemma_explained(m, texts);
    }
}

proof fn lemma_explained(message: Seq<char>, texts: Map<Seq<char>, Seq<char>>)
    ensures
        with_reason(message, document_reason(texts)) == explained(message, stated_reason(texts)),
{
    reveal_strlit("null");
    assert("null"@ =~= seq!['n', 'u', 'l', 'l']);
    if let Some(r) = document_reason(texts) {
        if text::contains_text(message, r) {
            let i = choose|i: int| text::occurs_at(message, r, i);
            assert(message.subrange(i, i + r.len()) == r);
        } else {
            assert forall|i: int| 0 <= i <= message.len() - r.len() implies #[trigger] message.subrange(
                i,
                i + r.len(),
            ) != r by {
                assert(!text::occurs_at(message, r, i));
            }
        }
    }
}

/// The reason that a document states: the first of these that is a text, `reason`, `Reason`, and
/// then the two under `error`; none if that text is empty or `null`.
pub open spec fn stated_reason(texts: Map<Seq<char>, Seq<char>>) -> Option<Seq<char>> {
    let first = if texts.contains_key("/reason"@) {
        Some(texts["/reason"@])
    } else if texts.contains_key("/Reason"@) {
        Some(texts["/Reason"@])
    } else if texts.contains_key("/error/reason"@) {
        Some(texts["/error/reason"@])
    } else if texts.contains_key("/error/Reason"@) {
        Some(texts["/error/Reason"@])
    } else {
        None
    };
    match first {
        Some(r) => if r.len() == 0 || r == seq!['n', 'u', 'l', 'l'] {
            None
        } else {
            Some(r)
        },
        None => None,
    }
}

/// A message with the reason behind it in brackets, unless the reason already stands in it.
pub open spec fn explained(message: Seq<char>, reason: Option<Seq<char>>) -> Seq<char> {
    match reason {
        Some(r) => if exists|i: int|
            0 <= i <= message.len() - r.len() && #[trigger] message.subrange(i, i + r.len()) == r {
            message
        } else {
            message + " (reason="@ + r + ")"@
        },
        None => message,
    }
}

} // verus!
