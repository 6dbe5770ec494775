//! The size of a request, and its body in the logs.
use crate::text;
use std::borrow::Cow;
use vstd::prelude::*;

verus! {

// ---------------------------------------------------------------------------------------------
// Tokens
// ---------------------------------------------------------------------------------------------

/// Chinese, Japanese and Korean characters and their punctuation.
pub open spec fn is_cjk(c: char) -> bool {
    let n = c as u32;
    ||| 0x4E00 <= n <= 0x9FFF  // unified ideographs
    ||| 0x3400 <= n <= 0x4DBF  // extension A
    ||| 0x20000 <= n <= 0x2A6DF  // extension B
    ||| 0x2A700 <= n <= 0x2B73F  // extension C
    ||| 0x2B740 <= n <= 0x2B81F  // extension D
    ||| 0xF900 <= n <= 0xFAFF  // compatibility ideographs
    ||| 0x2F800 <= n <= 0x2FA1F  // compatibility supplement
    ||| 0x3000 <= n <= 0x303F  // punctuation
    ||| 0x3040 <= n <= 0x309F  // hiragana
    ||| 0x30A0 <= n <= 0x30FF  // katakana
    ||| 0xAC00 <= n <= 0xD7AF  // hangul syllables

}

/// Whether `c` is a Chinese, Japanese or Korean character.
pub fn is_cjk_char(c: char) -> (r: bool)
    ensures
        r == is_cjk(c),
{
    let n: u32 = c as u32;
    (0x4E00 <= n && n <= 0x9FFF) || (0x3400 <= n && n <= 0x4DBF) || (0x20000 <= n && n <= 0x2A6DF)
        || (0x2A700 <= n && n <= 0x2B73F) || (0x2B740 <= n && n <= 0x2B81F) || (0xF900 <= n && n
        <= 0xFAFF) || (0x2F800 <= n && n <= 0x2FA1F) || (0x3000 <= n && n <= 0x303F) || (0x3040 <= n
        && n <= 0x309F) || (0x30A0 <= n && n <= 0x30FF) || (0xAC00 <= n && n <= 0xD7AF)
}

/// How many characters of `s` are Chinese, Japanese or Korean.
pub open spec fn cjk_count(s: Seq<char>) -> nat
    decreases s.len(),
{
    if s.len() == 0 {
        0
    } else {
        cjk_count(s.drop_last()) + if is_cjk(s.last()) {
            1nat
        } else {
            0
        }
    }
}

/// The tokens in a text with so many Chinese, Japanese or Korean characters and so many others:
/// one token for each 1.5 of the former and for each 3.5 of the latter, rounded to the nearest
/// whole number. Over the common denominator 42 that is 28 and 12 parts for each character, and
/// 21 parts, one half, to round.
pub open spec fn token_count(cjk: nat, other: nat) -> nat {
    (28 * cjk + 12 * other + 21) / 42
}

/// The tokens that the text `s` is taken to have.
pub open spec fn estimated_tokens(s: Seq<char>) -> nat {
    token_count(cjk_count(s), (s.len() - cjk_count(s)) as nat)
}

proof fn lemma_cjk_count(s: Seq<char>)
    ensures
        cjk_count(s) <= s.len(),
    decreases s.len(),
{
    if s.len() > 0 {
        lemma_cjk_count(s.drop_last());
    }
}

/// Estimates how many tokens a text has: 1.5 Chinese, Japanese or Korean characters to the token,
/// and 3.5 other characters.
pub fn estimate_tokens(s: &str) -> (r: usize)
    ensures
        r == estimated_tokens(s@),
{
    let total: usize = text::bytes_of(s);
    proof {
        text::lemma_byte_len_bounds(s@);
    }
    let mut cjk: usize = 0;
    let mut other: usize = 0;
    for c in it: s.chars()
        invariant
            it.seq() == s@,
            cjk == cjk_count(s@.take(it.index())),
            cjk + other == it.index(),
            s@.len() <= total,
    {
        proof {
            let i = it.index();
            assert(s@.take(i + 1).drop_last() =~= s@.take(i));
        }
        if is_cjk_char(c) {
            cjk += 1;
        } else {
            other += 1;
        }
    }
    assert(s@.take(s@.len() as int) =~= s@);
    ((28 * (cjk as u128) + 12 * (other as u128) + 21) / 42) as usize
}

/// A text that goes on longer is never taken for fewer tokens.
pub proof fn law_tokens_grow(s: Seq<char>, more: Seq<char>)
    ensures
        estimated_tokens(s) <= estimated_tokens(s + more),
    decreases more.len(),
{
    if more.len() == 0 {
        assert(s + more =~= s);
    } else {
        let t = s + more;
        assert(t.drop_last() =~= s + more.drop_last());
        law_tokens_grow(s, more.drop_last());
        lemma_cjk_count(t.drop_last());
        lemma_cjk_count(t);
    }
}

// ---------------------------------------------------------------------------------------------
// Bodies in the logs
// ---------------------------------------------------------------------------------------------

/// The fewest characters that are worth leaving out.
pub const MIN_OMITTED: usize = 30;

/// The body `s` for the logs: as it is if it is short, and otherwise its first and its last
/// `keep` characters, with the number of bytes that were left out between them.
pub open spec fn shortened(s: Seq<char>, keep: nat) -> Seq<char> {
    if s.len() <= 2 * keep + MIN_OMITTED {
        s
    } else {
        s.take(keep as int) + "...("@ + text::decimal(
            text::byte_len(s.subrange(keep as int, s.len() - keep)),
        ) + " bytes omitted)..."@ + s.skip(s.len() - keep)
    }
}

/// Shortens a request body for the logs, so that one full of encoded images does not fill them.
/// It keeps `keep` characters at each end.
pub fn truncate_body_for_log(s: &str, keep: usize) -> (r: Cow<'_, str>)
    requires
        2 * keep + MIN_OMITTED <= usize::MAX,
    ensures
        r@ == shortened(s@, keep as nat),
        r is Borrowed <==> s@.len() <= 2 * keep + MIN_OMITTED,
{
    let count: usize = s.unicode_len();
    if count <= keep * 2 + MIN_OMITTED {
        return Cow::Borrowed(s);
    }
    let head = s.substring_char(0, keep);
    let middle = s.substring_char(keep, count - keep);
    let tail = s.substring_char(count - keep, count);
    let mut out = head.to_string();
    out.append("...(");
    text::push_decimal(&mut out, text::bytes_of(middle));
    out.append(" bytes omitted)...");
    out.append(tail);
    assert(out@ =~= shortened(s@, keep as nat));
    Cow::Owned(out)
}

/// The file that a captured body goes to: in the directory `dir`, named after the time `stamp`.
pub fn capture_path(dir: &str, stamp: &str) -> (r: String)
    ensures
        r@ == dir@ + "/gar-"@ + stamp@ + ".json"@,
{
    let mut out = dir.to_string();
    out.append("/gar-");
    out.append(stamp);
    out.append(".json");
    out
}

// ---------------------------------------------------------------------------------------------
// What estimates and shortened bodies are for
// ---------------------------------------------------------------------------------------------

/// The blocks of Chinese, Japanese and Korean characters, and of their punctuation, that count.
pub open spec fn in_cjk_block(c: char) -> bool {
    ||| '\u{3000}' <= c <= '\u{30FF}'
    ||| '\u{3400}' <= c <= '\u{4DBF}'
    ||| '\u{4E00}' <= c <= '\u{9FFF}'
    ||| '\u{AC00}' <= c <= '\u{D7AF}'
    ||| '\u{F900}' <= c <= '\u{FAFF}'
    ||| '\u{20000}' <= c <= '\u{2A6DF}'
    ||| '\u{2A700}' <= c <= '\u{2B81F}'
    ||| '\u{2F800}' <= c <= '\u{2FA1F}'
}

/// A character counts as Chinese, Japanese or Korean by its block alone.
pub proof fn law_cjk_blocks(c: char)
    ensures
        is_cjk(c) <==> in_cjk_block(c),
{
}

/// The estimate is the nearest whole number to one token for each 1.5 Chinese, Japanese or Korean
/// characters and for each 3.5 others, for a text of any length and in any order.
pub proof fn law_tokens_are_rounded(s: Seq<char>)
    ensures
        ({
            let cjk = s.filter(|c: char| in_cjk_block(c)).len();
            let other = s.len() - cjk;
            // 28 / 42 is 1 / 1.5, and 12 / 42 is 1 / 3.5
            -21 <= 42 * estimated_tokens(s) - (28 * cjk + 12 * other) <= 21
        }),
{
    lemma_cjk_filter(s);
    lemma_cjk_count(s);
    let parts = 28 * cjk_count(s) + 12 * (s.len() - cjk_count(s)) + 21;
    assert(42 * (parts / 42) <= parts < 42 * (parts / 42) + 42);
}

proof fn lemma_cjk_filter(s: Seq<char>)
    ensures
        s.filter(|c: char| in_cjk_block(c)).len() == cjk_count(s),
    decreases s.len(),
{
    reveal(Seq::filter);
    if s.len() > 0 {
        lemma_cjk_filter(s.drop_last());
        law_cjk_blocks(s.last());
    }
}

/// A body is left as it is unless more than thirty characters would go. Otherwise its first and its
/// last `keep` characters stay, and between them stands, in digits, how many bytes are missing.
pub proof fn law_shortened_bodies(s: Seq<char>, keep: nat)
    ensures
        ({
            let short = shortened(s, keep);
            &&& s.len() <= 2 * keep + 30 ==> short == s
            &&& s.len() > 2 * keep + 30 ==> exists|digits: Seq<char>|
                #![trigger text::all_digits(digits)]
                {
                    let head = s.take(keep as int);
                    let tail = s.skip(s.len() - keep);
                    &&& short == head + "...("@ + digits + " bytes omitted)..."@ + tail
                    &&& text::all_digits(digits) && digits.len() > 0
                    &&& text::decimal_value(digits) + text::byte_len(head) + text::byte_len(tail)
                        == text::byte_len(s)
                }
        }),
{
    if s.len() > 2 * keep + 30 {
        let head = s.take(keep as int);
        let middle = s.subrange(keep as int, s.len() - keep);
        let tail = s.skip(s.len() - keep);
        let digits = text::decimal(text::byte_len(middle));
        text::law_numbers_are_written(text::byte_len(middle));
        assert(s =~= head + middle + tail);
        text::lemma_byte_len_add(head + middle, tail);
        text::lemma_byte_len_add(head, middle);
        assert(shortened(s, keep) == head + "...("@ + digits + " bytes omitted)..."@ + tail);
    }
}

} // verus!
