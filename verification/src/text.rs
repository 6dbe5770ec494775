//! Text as sequences of characters: the string operations that the provider's rules are
//! written with, each with the sequence it computes.
use vstd::prelude::*;

verus! {

/// `String::push` appends the given character to the end of the string.
pub assume_specification[ String::push ](s: &mut String, c: char)
    ensures
        final(s)@ == old(s)@.push(c),
;

// ---------------------------------------------------------------------------------------------
// Characters
// ---------------------------------------------------------------------------------------------

/// The characters with the Unicode property `White_Space`.
pub open spec fn is_space(c: char) -> bool {
    let n = c as u32;
    ||| 0x09 <= n <= 0x0D
    ||| n == 0x20
    ||| n == 0x85
    ||| n == 0xA0
    ||| n == 0x1680
    ||| 0x2000 <= n <= 0x200A
    ||| n == 0x2028
    ||| n == 0x2029
    ||| n == 0x202F
    ||| n == 0x205F
    ||| n == 0x3000
}

/// Whether `c` is white space in the sense of Unicode.
pub fn is_whitespace(c: char) -> (r: bool)
    ensures
        r == is_space(c),
{
    let n: u32 = c as u32;
    (0x09 <= n && n <= 0x0D) || n == 0x20 || n == 0x85 || n == 0xA0 || n == 0x1680 || (0x2000 <= n
        && n <= 0x200A) || n == 0x2028 || n == 0x2029 || n == 0x202F || n == 0x205F || n == 0x3000
}

/// `c` with the letters `A` to `Z` mapped to `a` to `z`.
pub open spec fn lower_char(c: char) -> char {
    if 'A' <= c <= 'Z' {
        (c as u32 + 32) as char
    } else {
        c
    }
}

/// `c` with the letters `a` to `z` mapped to `A` to `Z`.
pub open spec fn upper_char(c: char) -> char {
    if 'a' <= c <= 'z' {
        (c as u32 - 32) as char
    } else {
        c
    }
}

fn ascii_lower(c: char) -> (r: char)
    ensures
        r == lower_char(c),
{
    if 'A' <= c && c <= 'Z' {
        ((c as u8) + 32) as char
    } else {
        c
    }
}

fn ascii_upper(c: char) -> (r: char)
    ensures
        r == upper_char(c),
{
    if 'a' <= c && c <= 'z' {
        ((c as u8) - 32) as char
    } else {
        c
    }
}

// ---------------------------------------------------------------------------------------------
// Copies, comparison, search
// ---------------------------------------------------------------------------------------------

/// The characters of `s`, in order.
pub fn chars_of(s: &str) -> (r: Vec<char>)
    ensures
        r@ == s@,
{
    let mut out: Vec<char> = Vec::new();
    for c in it: s.chars()
        invariant
            out@ == it.seq().take(it.index()),
            it.seq() == s@,
    {
        out.push(c);
    }
    out
}

/// Whether `a` and `b` are the same text.
pub fn same_text(a: &str, b: &str) -> (r: bool)
    ensures
        r == (a@ == b@),
{
    a.to_string() == b.to_string()
}

/// `part` stands in `text` from position `i` on.
pub open spec fn occurs_at(text: Seq<char>, part: Seq<char>, i: int) -> bool {
    0 <= i <= text.len() - part.len() && text.subrange(i, i + part.len()) == part
}

/// `part` stands somewhere in `text`.
pub open spec fn contains_text(text: Seq<char>, part: Seq<char>) -> bool {
    exists|i: int| occurs_at(text, part, i)
}

fn matches_at(text: &Vec<char>, part: &Vec<char>, i: usize) -> (r: bool)
    requires
        i + part.len() <= text.len(),
    ensures
        r == occurs_at(text@, part@, i as int),
{
    let mut j: usize = 0;
    while j < part.len()
        invariant
            i + part.len() <= text.len(),
            j <= part.len(),
            forall|k: int| 0 <= k < j ==> text@[i + k] == part@[k],
        decreases part.len() - j,
    {
        if text[i + j] != part[j] {
            assert(text@.subrange(i as int, i + part@.len())[j as int] != part@[j as int]);
            return false;
        }
        j += 1;
    }
    assert(text@.subrange(i as int, i + part@.len()) =~= part@);
    true
}

/// Whether `part` stands somewhere in `text`.
pub fn contains(text: &str, part: &str) -> (r: bool)
    ensures
        r == contains_text(text@, part@),
{
    let t = chars_of(text);
    let p = chars_of(part);
    if p.len() > t.len() {
        return false;
    }
    let last: usize = t.len() - p.len();
    let mut i: usize = 0;
    while i < last
        invariant
            t@ == text@,
            p@ == part@,
            last == t.len() - p.len(),
            i <= last,
            forall|k: int| 0 <= k < i ==> !occurs_at(t@, p@, k),
        decreases last - i,
    {
        if matches_at(&t, &p, i) {
            return true;
        }
        i += 1;
    }
    let r = matches_at(&t, &p, last);
    assert(forall|k: int| occurs_at(t@, p@, k) ==> k == last);
    r
}

/// `s` with every ASCII letter in lower case.
pub open spec fn lowered(s: Seq<char>) -> Seq<char> {
    Seq::new(s.len(), |i: int| lower_char(s[i]))
}

/// `s` with every ASCII letter in upper case.
pub open spec fn raised(s: Seq<char>) -> Seq<char> {
    Seq::new(s.len(), |i: int| upper_char(s[i]))
}

/// `s` with every ASCII letter in lower case.
pub fn to_ascii_lowercase(s: &str) -> (r: String)
    ensures
        r@ == lowered(s@),
{
    let mut out = String::new();
    for c in it: s.chars()
        invariant
            out@ == lowered(it.seq().take(it.index())),
            it.seq() == s@,
    {
        out.push(ascii_lower(c));
        assert(out@ =~= lowered(it.seq().take(it.index() + 1)));
    }
    assert(s@.take(s@.len() as int) =~= s@);
    out
}

/// `s` with every ASCII letter in upper case.
pub fn to_ascii_uppercase(s: &str) -> (r: String)
    ensures
        r@ == raised(s@),
{
    let mut out = String::new();
    for c in it: s.chars()
        invariant
            out@ == raised(it.seq().take(it.index())),
            it.seq() == s@,
    {
        out.push(ascii_upper(c));
        assert(out@ =~= raised(it.seq().take(it.index() + 1)));
    }
    assert(s@.take(s@.len() as int) =~= s@);
    out
}

// ---------------------------------------------------------------------------------------------
// White space
// ---------------------------------------------------------------------------------------------

/// `s` without the white space that it begins with.
pub open spec fn trim_start(s: Seq<char>) -> Seq<char>
    decreases s.len(),
{
    if s.len() > 0 && is_space(s[0]) {
        trim_start(s.drop_first())
    } else {
        s
    }
}

/// `s` without the white space that it ends with.
pub open spec fn trim_end(s: Seq<char>) -> Seq<char>
    decreases s.len(),
{
    if s.len() > 0 && is_space(s.last()) {
        trim_end(s.drop_last())
    } else {
        s
    }
}

/// `s` without the white space at both ends.
pub open spec fn trimmed(s: Seq<char>) -> Seq<char> {
    trim_end(trim_start(s))
}

proof fn lemma_trim_start(s: Seq<char>, n: int)
    requires
        0 <= n <= s.len(),
        forall|i: int| 0 <= i < n ==> is_space(#[trigger] s[i]),
        n < s.len() ==> !is_space(s[n]),
    ensures
        trim_start(s) == s.skip(n),
    decreases s.len(),
{
    if n > 0 {
        assert(s.drop_first().skip(n - 1) =~= s.skip(n));
        assert forall|i: int| 0 <= i < n - 1 implies is_space(#[trigger] s.drop_first()[i]) by {
            assert(is_space(s[i + 1]));
        }
        lemma_trim_start(s.drop_first(), n - 1);
    } else {
        assert(s.skip(0) =~= s);
    }
}

proof fn lemma_trim_end(s: Seq<char>, n: int)
    requires
        0 <= n <= s.len(),
        forall|i: int| n <= i < s.len() ==> is_space(#[trigger] s[i]),
        n > 0 ==> !is_space(s[n - 1]),
    ensures
        trim_end(s) == s.take(n),
    decreases s.len(),
{
    if n < s.len() {
        assert(s.drop_last().take(n) =~= s.take(n));
        lemma_trim_end(s.drop_last(), n);
    } else {
        assert(s.take(n) =~= s);
    }
}

/// `s` without the white space at both ends.
pub fn trim(s: &str) -> (r: &str)
    ensures
        r@ == trimmed(s@),
{
    let chars = chars_of(s);
    let n: usize = chars.len();
    let mut start: usize = 0;
    while start < n && is_whitespace(chars[start])
        invariant
            n == chars.len(),
            start <= n,
            forall|i: int| 0 <= i < start ==> is_space(#[trigger] chars@[i]),
        decreases n - start,
    {
        start += 1;
    }
    let mut end: usize = n;
    while end > start && is_whitespace(chars[end - 1])
        invariant
            n == chars.len(),
            start <= end <= n,
            forall|i: int| end <= i < n ==> is_space(#[trigger] chars@[i]),
        decreases end,
    {
        end -= 1;
    }
    proof {
        let t = s@.skip(start as int);
        lemma_trim_start(s@, start as int);
        lemma_trim_end(t, end - start);
        assert(t.take(end - start) =~= s@.subrange(start as int, end as int));
    }
    s.substring_char(start, end)
}

/// The words of `s`: its maximal runs without white space, in order. A character that is not
/// white space opens a word if it is the first one or follows white space, and otherwise
/// continues the word before it.
pub open spec fn words(s: Seq<char>) -> Seq<Seq<char>>
    decreases s.len(),
{
    if s.len() == 0 {
        seq![]
    } else {
        let before = words(s.drop_last());
        let c = s.last();
        if is_space(c) {
            before
        } else if s.len() == 1 || is_space(s[s.len() - 2]) {
            before.push(seq![c])
        } else {
            before.update(before.len() - 1, before.last().push(c))
        }
    }
}

/// The texts `parts` one after the other, with one space between neighbours.
pub open spec fn joined(parts: Seq<Seq<char>>) -> Seq<char>
    decreases parts.len(),
{
    if parts.len() == 0 {
        seq![]
    } else if parts.len() == 1 {
        parts[0]
    } else {
        joined(parts.drop_last()).push(' ') + parts.last()
    }
}

/// `s` on one line: its words, with one space between neighbours.
pub open spec fn one_line(s: Seq<char>) -> Seq<char> {
    joined(words(s))
}

/// There is a word once there is a character that is not white space, and no word is empty.
proof fn lemma_words(s: Seq<char>)
    ensures
        forall|i: int| 0 <= i < words(s).len() ==> (#[trigger] words(s)[i]).len() > 0,
        s.len() > 0 && !is_space(s.last()) ==> words(s).len() > 0,
    decreases s.len(),
{
    if s.len() > 0 {
        let before = words(s.drop_last());
        lemma_words(s.drop_last());
        if s.len() > 1 {
            assert(s.drop_last().last() == s[s.len() - 2]);
        }
        assert forall|i: int| 0 <= i < words(s).len() implies (#[trigger] words(s)[i]).len() > 0 by {
            if i < before.len() {
                assert(before[i].len() > 0);
            }
        }
    }
}

proof fn lemma_joined_nonempty(parts: Seq<Seq<char>>)
    requires
        forall|i: int| 0 <= i < parts.len() ==> (#[trigger] parts[i]).len() > 0,
    ensures
        joined(parts).len() > 0 <==> parts.len() > 0,
{
}

/// How the line grows by one character.
proof fn lemma_one_line_push(s: Seq<char>, c: char)
    ensures
        is_space(c) ==> one_line(s.push(c)) == one_line(s),
        !is_space(c) && (s.len() == 0 || is_space(s.last())) ==> one_line(s.push(c)) == if one_line(
            s,
        ).len() == 0 {
            seq![c]
        } else {
            one_line(s).push(' ').push(c)
        },
        !is_space(c) && s.len() > 0 && !is_space(s.last()) ==> one_line(s.push(c)) == one_line(
            s,
        ).push(c),
{
    let ws = words(s);
    assert(s.push(c).drop_last() =~= s);
    lemma_words(s);
    lemma_joined_nonempty(ws);
    if !is_space(c) {
        if s.len() == 0 || is_space(s.last()) {
            let grown = ws.push(seq![c]);
            assert(words(s.push(c)) == grown);
            assert(grown.drop_last() =~= ws);
            if ws.len() > 0 {
                assert(joined(grown) =~= joined(ws).push(' ').push(c));
            }
        } else {
            let grown = ws.update(ws.len() - 1, ws.last().push(c));
            assert(words(s.push(c)) == grown);
            assert(grown.drop_last() =~= ws.drop_last());
            assert(joined(grown) =~= joined(ws).push(c));
        }
    }
}

/// `s` on one line: its words, with one space between neighbours.
pub fn to_one_line(s: &str) -> (r: String)
    ensures
        r@ == one_line(s@),
{
    let mut out = String::new();
    let mut in_word: bool = false;
    let mut started: bool = false;
    for c in it: s.chars()
        invariant
            it.seq() == s@,
            out@ == one_line(s@.take(it.index())),
            started == (out@.len() > 0),
            in_word == (it.index() > 0 && !is_space(s@[it.index() - 1])),
    {
        proof {
            let i = it.index();
            assert(s@.take(i + 1) =~= s@.take(i).push(c));
            lemma_one_line_push(s@.take(i), c);
            lemma_words(s@.take(i));
            lemma_joined_nonempty(words(s@.take(i)));
        }
        if is_whitespace(c) {
            in_word = false;
        } else {
            if !in_word && started {
                out.push(' ');
            }
            out.push(c);
            assert(out@ =~= one_line(s@.take(it.index() + 1)));
            in_word = true;
            started = true;
        }
    }
    assert(s@.take(s@.len() as int) =~= s@);
    out
}

/// The only white space in `s` is the space character, and it stands neither at an end nor next
/// to another one.
pub open spec fn on_one_line(s: Seq<char>) -> bool {
    forall|i: int|
        0 <= i < s.len() && is_space(#[trigger] s[i]) ==> {
            &&& s[i] == ' '
            &&& 0 < i < s.len() - 1
            &&& !is_space(s[i - 1])
            &&& !is_space(s[i + 1])
        }
}

/// The characters of `s` that are not white space.
pub open spec fn without_space(s: Seq<char>) -> Seq<char>
    decreases s.len(),
{
    if s.len() == 0 {
        seq![]
    } else if is_space(s.last()) {
        without_space(s.drop_last())
    } else {
        without_space(s.drop_last()).push(s.last())
    }
}

/// Putting a text on one line leaves single spaces between its words and no other white space,
/// and takes nothing away but white space.
pub proof fn law_one_line(s: Seq<char>)
    ensures
        on_one_line(one_line(s)),
        without_space(one_line(s)) == without_space(s),
    decreases s.len(),
{
    if s.len() > 0 {
        let before = s.drop_last();
        let c = s.last();
        let line = one_line(before);
        law_one_line(before);
        assert(before.push(c) =~= s);
        lemma_one_line_push(before, c);
        lemma_without_space_push(before, c);
        if !is_space(c) {
            lemma_without_space_push(line, c);
            lemma_without_space_push(line, ' ');
            lemma_without_space_push(line.push(' '), c);
            if line.len() == 0 {
                assert(line.push(c) =~= seq![c]);
            }
        }
    }
}

proof fn lemma_without_space_push(s: Seq<char>, c: char)
    ensures
        without_space(s.push(c)) == if is_space(c) {
            without_space(s)
        } else {
            without_space(s).push(c)
        },
{
    assert(s.push(c).drop_last() =~= s);
}

// ---------------------------------------------------------------------------------------------
// Length in bytes
// ---------------------------------------------------------------------------------------------

/// How many bytes `s` takes in UTF-8.
pub open spec fn byte_len(s: Seq<char>) -> nat {
    vstd::utf8::encode_utf8(s).len()
}

/// How many bytes `c` takes in UTF-8.
pub open spec fn char_width(c: char) -> nat {
    if c as u32 <= 0x7F {
        1
    } else if c as u32 <= 0x7FF {
        2
    } else if c as u32 <= 0xFFFF {
        3
    } else {
        4
    }
}

fn width_of(c: char) -> (r: usize)
    ensures
        r == char_width(c),
{
    let n: u32 = c as u32;
    if n <= 0x7F {
        1
    } else if n <= 0x7FF {
        2
    } else if n <= 0xFFFF {
        3
    } else {
        4
    }
}

/// Bytes add up over concatenation.
pub proof fn lemma_byte_len_add(a: Seq<char>, b: Seq<char>)
    ensures
        byte_len(a + b) == byte_len(a) + byte_len(b),
    decreases a.len(),
{
    if a.len() == 0 {
        assert(a + b =~= b);
    } else {
        assert((a + b).drop_first() =~= a.drop_first() + b);
        lemma_byte_len_add(a.drop_first(), b);
    }
}

/// One character takes its width.
pub proof fn lemma_byte_len_char(c: char)
    ensures
        byte_len(seq![c]) == char_width(c),
{
    assert(seq![c].drop_first() =~= Seq::<char>::empty());
    assert(vstd::utf8::encode_utf8(Seq::<char>::empty()).len() == 0);
    assert(vstd::utf8::encode_utf8(seq![c]) == vstd::utf8::encode_scalar(c as u32)
        + vstd::utf8::encode_utf8(Seq::<char>::empty()));
}

/// One more character takes its width more.
pub proof fn lemma_byte_len_push(s: Seq<char>, c: char)
    ensures
        byte_len(s.push(c)) == byte_len(s) + char_width(c),
{
    assert(s.push(c) =~= s + seq![c]);
    lemma_byte_len_add(s, seq![c]);
    lemma_byte_len_char(c);
}

/// Every character takes at least one byte.
pub proof fn lemma_byte_len_bounds(s: Seq<char>)
    ensures
        s.len() <= byte_len(s),
    decreases s.len(),
{
    if s.len() > 0 {
        assert(s.drop_last().push(s.last()) =~= s);
        lemma_byte_len_push(s.drop_last(), s.last());
        lemma_byte_len_bounds(s.drop_last());
    }
}

/// A prefix takes no more bytes than the whole.
pub proof fn lemma_byte_len_take(s: Seq<char>, n: int)
    requires
        0 <= n <= s.len(),
    ensures
        byte_len(s.take(n)) <= byte_len(s),
{
    assert(s.take(n) + s.skip(n) =~= s);
    lemma_byte_len_add(s.take(n), s.skip(n));
}

/// How many bytes `s` takes in UTF-8.
pub fn bytes_of(s: &str) -> (r: usize)
    ensures
        r == byte_len(s@),
{
    s.as_bytes().len()
}

/// The longest prefix of `s` that takes at most `max` bytes.
pub open spec fn longest_fitting(s: Seq<char>, max: nat) -> Seq<char>
    decreases s.len(),
{
    if s.len() == 0 || byte_len(s) <= max {
        s
    } else {
        longest_fitting(s.drop_last(), max)
    }
}

proof fn lemma_longest_fitting(s: Seq<char>, max: nat, n: int)
    requires
        0 <= n < s.len(),
        byte_len(s.take(n)) <= max,
        byte_len(s.take(n + 1)) > max,
    ensures
        longest_fitting(s, max) == s.take(n),
    decreases s.len(),
{
    lemma_byte_len_take(s, n + 1);
    let t = s.drop_last();
    if n == t.len() {
        assert(s.take(n) =~= t);
        if t.len() > 0 {
            assert(longest_fitting(t, max) == t);
        }
    } else {
        assert(t.take(n) =~= s.take(n));
        assert(t.take(n + 1) =~= s.take(n + 1));
        lemma_longest_fitting(t, max, n);
    }
}

/// What the longest fitting prefix is: a prefix that fits, and such that no longer one does.
pub proof fn law_longest_fitting(s: Seq<char>, max: nat)
    ensures
        ({
            let n = longest_fitting(s, max).len();
            &&& n <= s.len()
            &&& longest_fitting(s, max) == s.take(n as int)
            &&& byte_len(longest_fitting(s, max)) <= max
            &&& forall|k: int| n < k <= s.len() ==> byte_len(#[trigger] s.take(k)) > max
        }),
    decreases s.len(),
{
    if s.len() == 0 || byte_len(s) <= max {
        assert(s.take(s.len() as int) =~= s);
        assert(byte_len(Seq::<char>::empty()) == 0);
        assert(s.len() == 0 ==> s =~= Seq::<char>::empty());
    } else {
        let t = s.drop_last();
        law_longest_fitting(t, max);
        let n = longest_fitting(t, max).len() as int;
        assert(t.take(n) =~= s.take(n));
        assert forall|k: int| n < k <= s.len() implies byte_len(#[trigger] s.take(k)) > max by {
            if k < s.len() {
                assert(t.take(k) =~= s.take(k));
            } else {
                assert(s.take(k) =~= s);
            }
        }
    }
}

/// The longest prefix of `s` that takes at most `max` bytes: `s` cut at the last character
/// boundary that is not past `max`.
pub fn prefix_within(s: &str, max: usize) -> (r: &str)
    ensures
        r@ == longest_fitting(s@, max as nat),
{
    let total: usize = bytes_of(s);
    if total <= max {
        return s;
    }
    let mut taken: usize = 0;
    let mut used: usize = 0;
    for c in it: s.chars()
        invariant
            it.seq() == s@,
            taken == it.index(),
            total == byte_len(s@),
            total > max,
            used == byte_len(s@.take(taken as int)),
            used <= max,
    {
        let w: usize = width_of(c);
        proof {
            let i = it.index();
            assert(s@.take(i + 1) =~= s@.take(i).push(c));
            lemma_byte_len_push(s@.take(i), c);
            lemma_byte_len_take(s@, i + 1);
            lemma_byte_len_bounds(s@);
            if used + w > max {
                lemma_longest_fitting(s@, max as nat, i);
            }
        }
        if used + w > max {
            return s.substring_char(0, taken);
        }
        used += w;
        taken += 1;
    }
    assert(s@.take(s@.len() as int) =~= s@);
    s
}

// ---------------------------------------------------------------------------------------------
// Numbers
// ---------------------------------------------------------------------------------------------

/// The decimal digit for `d`.
pub open spec fn digit_char(d: nat) -> char {
    ('0' as u32 + d) as char
}

/// `n` in decimal, without leading zeros.
pub open spec fn decimal(n: nat) -> Seq<char>
    decreases n,
{
    if n < 10 {
        seq![digit_char(n)]
    } else {
        decimal(n / 10).push(digit_char(n % 10))
    }
}

/// Appends `n` in decimal.
pub fn push_decimal(out: &mut String, n: usize)
    ensures
        final(out)@ == old(out)@ + decimal(n as nat),
    decreases n,
{
    let d: u8 = (n % 10) as u8;
    if n >= 10 {
        push_decimal(out, n / 10);
    }
    out.push((d + 48) as char);
    assert(out@ =~= old(out)@ + decimal(n as nat));
}

/// A character from `0` to `9`.
pub open spec fn is_digit(c: char) -> bool {
    '0' <= c <= '9'
}

/// Only digits.
pub open spec fn all_digits(s: Seq<char>) -> bool {
    forall|i: int| 0 <= i < s.len() ==> is_digit(#[trigger] s[i])
}

/// What the digits `s` mean in decimal.
pub open spec fn decimal_value(s: Seq<char>) -> nat
    decreases s.len(),
{
    if s.len() == 0 {
        0
    } else {
        10 * decimal_value(s.drop_last()) + (s.last() as u32 - '0' as u32) as nat
    }
}

/// The number that `s` spells: digits, at least one, with an optional `+` in front, of a value
/// that 64 bits hold.
pub open spec fn spelled_u64(s: Seq<char>) -> Option<u64> {
    let digits = if s.len() > 0 && s[0] == '+' {
        s.drop_first()
    } else {
        s
    };
    if digits.len() > 0 && all_digits(digits) && decimal_value(digits) <= u64::MAX {
        Some(decimal_value(digits) as u64)
    } else {
        None
    }
}

proof fn lemma_decimal_value_take(s: Seq<char>, n: int)
    requires
        all_digits(s),
        0 <= n <= s.len(),
    ensures
        decimal_value(s.take(n)) <= decimal_value(s),
    decreases s.len(),
{
    if n == s.len() {
        assert(s.take(n) =~= s);
    } else {
        let t = s.drop_last();
        assert forall|i: int| 0 <= i < t.len() implies is_digit(#[trigger] t[i]) by {
            assert(is_digit(s[i]));
        }
        assert(t.take(n) =~= s.take(n));
        lemma_decimal_value_take(t, n);
    }
}

/// The number that `s` spells in decimal, if it spells one that 64 bits hold.
pub fn parse_u64(s: &str) -> (r: Option<u64>)
    ensures
        r == spelled_u64(s@),
{
    let chars = chars_of(s);
    let first: usize = if chars.len() > 0 && chars[0] == '+' {
        1
    } else {
        0
    };
    let ghost digits = s@.skip(first as int);
    proof {
        if first == 1 {
            assert(digits =~= s@.drop_first());
        } else {
            assert(digits =~= s@);
        }
    }
    if first == chars.len() {
        return None;
    }
    let mut value: u64 = 0;
    let mut i: usize = first;
    while i < chars.len()
        invariant
            chars@ == s@,
            first <= i <= chars.len(),
            digits == s@.skip(first as int),
            digits == if s@.len() > 0 && s@[0] == '+' { s@.drop_first() } else { s@ },
            all_digits(digits.take(i - first)),
            value == decimal_value(digits.take(i - first)),
        decreases chars.len() - i,
    {
        let c: char = chars[i];
        if !('0' <= c && c <= '9') {
            assert(!is_digit(digits[i - first]));
            return None;
        }
        let d: u64 = (c as u32 - '0' as u32) as u64;
        proof {
            let k = i - first;
            assert(digits.take(k + 1).drop_last() =~= digits.take(k));
            assert(digits.take(k + 1).last() == c);
            assert forall|j: int| 0 <= j < k + 1 implies is_digit(
                #[trigger] digits.take(k + 1)[j],
            ) by {
                if j < k {
                    assert(is_digit(digits.take(k)[j]));
                }
            }
            if 10 * value + d > u64::MAX && all_digits(digits) {
                lemma_decimal_value_take(digits, k + 1);
            }
        }
        if value > u64::MAX / 10 || value * 10 > u64::MAX - d {
            return None;
        }
        value = value * 10 + d;
        i += 1;
    }
    assert(digits.take(digits.len() as int) =~= digits);
    Some(value)
}

// ---------------------------------------------------------------------------------------------
// What the text functions are for
// ---------------------------------------------------------------------------------------------

/// A text contains whatever was put into it, wherever that is and however long the text is.
pub proof fn law_contains_what_was_put_in(before: Seq<char>, part: Seq<char>, after: Seq<char>)
    ensures
        contains_text(before + part + after, part),
{
    let text = before + part + after;
    let i = before.len() as int;
    assert(text.subrange(i, i + part.len()) =~= part);
    assert(occurs_at(text, part, i));
}

/// A text contains a part only if it is made of something, the part, and something.
pub proof fn law_contains_no_more(text: Seq<char>, part: Seq<char>)
    requires
        contains_text(text, part),
    ensures
        exists|before: Seq<char>, after: Seq<char>| text == #[trigger] (before + part + after),
{
    let i = choose|i: int| occurs_at(text, part, i);
    assert(text =~= text.take(i) + text.subrange(i, i + part.len()) + text.skip(i + part.len()));
}

/// The same letter, whatever its case, or the same character.
pub open spec fn same_letter(a: char, b: char) -> bool {
    ||| a == b
    ||| 'a' <= a <= 'z' && a as int == b as int + 32
    ||| 'a' <= b <= 'z' && b as int == a as int + 32
}

/// Lower case and upper case keep every letter and every other character, in their places, and have
/// only letters of the one case.
pub proof fn law_case(s: Seq<char>, i: int)
    requires
        0 <= i < s.len(),
    ensures
        lowered(s).len() == s.len(),
        raised(s).len() == s.len(),
        same_letter(lowered(s)[i], s[i]),
        same_letter(raised(s)[i], s[i]),
        !('A' <= lowered(s)[i] <= 'Z'),
        !('a' <= raised(s)[i] <= 'z'),
{
}

/// All of it is white space.
pub open spec fn blank(s: Seq<char>) -> bool {
    forall|i: int| 0 <= i < s.len() ==> is_space(#[trigger] s[i])
}

/// Trimming takes white space away at both ends and nothing else: what surrounds the trimmed text
/// is blank, and the trimmed text neither begins nor ends with white space.
pub proof fn law_trim(s: Seq<char>)
    ensures
        exists|before: Seq<char>, after: Seq<char>|
            s == #[trigger] (before + trimmed(s) + after) && blank(before) && blank(after),
        trimmed(s).len() > 0 ==> !is_space(trimmed(s)[0]) && !is_space(trimmed(s).last()),
{
    let t = trim_start(s);
    let before = lemma_trim_start_parts(s);
    let after = lemma_trim_end_parts(t);
    assert(s =~= before + trimmed(s) + after);
    if trimmed(s).len() > 0 {
        assert(trimmed(s)[0] == t[0]);
    }
}

/// What stands between blank ends is what is left, if it neither begins nor ends with white space.
pub proof fn law_trim_takes_blank_ends(before: Seq<char>, s: Seq<char>, after: Seq<char>)
    requires
        blank(before),
        blank(after),
        s.len() > 0,
        !is_space(s[0]),
        !is_space(s.last()),
    ensures
        trimmed(before + s + after) == s,
{
    let whole = before + s + after;
    let n = before.len() as int;
    assert forall|i: int| 0 <= i < n implies is_space(#[trigger] whole[i]) by {
        assert(is_space(before[i]));
    }
    assert(whole[n] == s[0]);
    lemma_trim_start(whole, n);
    let rest = whole.skip(n);
    assert(rest =~= s + after);
    assert forall|i: int| s.len() <= i < rest.len() implies is_space(#[trigger] rest[i]) by {
        assert(is_space(after[i - s.len()]));
    }
    lemma_trim_end(rest, s.len() as int);
    assert(rest.take(s.len() as int) =~= s);
}

/// Nothing is left of a blank text.
pub proof fn lemma_trimmed_blank(s: Seq<char>)
    requires
        blank(s),
    ensures
        trimmed(s).len() == 0,
{
    lemma_trim_start(s, s.len() as int);
    assert(s.skip(s.len() as int).len() == 0);
}

proof fn lemma_trim_start_parts(s: Seq<char>) -> (before: Seq<char>)
    ensures
        s == before + trim_start(s),
        blank(before),
        trim_start(s).len() > 0 ==> !is_space(trim_start(s)[0]),
    decreases s.len(),
{
    if s.len() > 0 && is_space(s[0]) {
        let rest = lemma_trim_start_parts(s.drop_first());
        let before = seq![s[0]] + rest;
        assert(s =~= seq![s[0]] + s.drop_first());
        assert(s =~= before + trim_start(s.drop_first()));
        assert forall|i: int| 0 <= i < before.len() implies is_space(#[trigger] before[i]) by {
            if i > 0 {
                assert(is_space(rest[i - 1]));
            }
        }
        before
    } else {
        assert(s =~= Seq::<char>::empty() + s);
        Seq::empty()
    }
}

proof fn lemma_trim_end_parts(s: Seq<char>) -> (after: Seq<char>)
    ensures
        s == trim_end(s) + after,
        blank(after),
        trim_end(s).len() > 0 ==> !is_space(trim_end(s).last()),
    decreases s.len(),
{
    if s.len() > 0 && is_space(s.last()) {
        let rest = lemma_trim_end_parts(s.drop_last());
        let after = rest.push(s.last());
        assert(s =~= s.drop_last().push(s.last()));
        assert(s =~= trim_end(s.drop_last()) + after);
        assert forall|i: int| 0 <= i < after.len() implies is_space(#[trigger] after[i]) by {
            if i < rest.len() {
                assert(is_space(rest[i]));
            }
        }
        after
    } else {
        assert(s =~= s + Seq::<char>::empty());
        Seq::empty()
    }
}

/// A word stays as it is on one line.
pub proof fn law_words_stay_whole(word: Seq<char>)
    requires
        forall|i: int| 0 <= i < word.len() ==> !is_space(#[trigger] word[i]),
    ensures
        one_line(word) == word,
    decreases word.len(),
{
    if word.len() > 0 {
        let before = word.drop_last();
        assert(before.push(word.last()) =~= word);
        assert forall|i: int| 0 <= i < before.len() implies !is_space(#[trigger] before[i]) by {
            assert(!is_space(word[i]));
        }
        law_words_stay_whole(before);
        lemma_one_line_push(before, word.last());
        if before.len() == 0 {
            assert(word =~= seq![word.last()]);
        }
    }
}

/// White space between two texts, of whatever kind and length, is one space on one line, and none
/// if there is nothing before or after it.
pub proof fn law_gaps_become_one_space(a: Seq<char>, gap: Seq<char>, b: Seq<char>)
    requires
        gap.len() > 0,
        blank(gap),
    ensures
        one_line(a + gap + b) == if one_line(a).len() == 0 {
            one_line(b)
        } else if one_line(b).len() == 0 {
            one_line(a)
        } else {
            one_line(a).push(' ') + one_line(b)
        },
    decreases b.len(),
{
    if b.len() == 0 {
        assert(a + gap + b =~= a + gap);
        lemma_one_line_gap(a, gap);
    } else {
        let shorter = b.drop_last();
        let c = b.last();
        let s = a + gap + shorter;
        law_gaps_become_one_space(a, gap, shorter);
        assert(shorter.push(c) =~= b);
        assert(s.push(c) =~= a + gap + b);
        lemma_one_line_push(s, c);
        lemma_one_line_push(shorter, c);
        lemma_words(shorter);
        lemma_joined_nonempty(words(shorter));
        if shorter.len() == 0 {
            assert(is_space(gap[gap.len() - 1]));
            assert(s.last() == gap.last());
            assert(one_line(shorter).len() == 0);
            assert(!is_space(c) ==> one_line(b) =~= seq![c]);
        } else {
            assert(s.last() == shorter.last());
        }
        if !is_space(c) {
            assert(one_line(a + gap + b) =~= if one_line(a).len() == 0 {
                one_line(b)
            } else {
                one_line(a).push(' ') + one_line(b)
            });
        }
    }
}

proof fn lemma_one_line_gap(a: Seq<char>, gap: Seq<char>)
    requires
        blank(gap),
    ensures
        one_line(a + gap) == one_line(a),
    decreases gap.len(),
{
    if gap.len() == 0 {
        assert(a + gap =~= a);
    } else {
        let shorter = gap.drop_last();
        assert forall|i: int| 0 <= i < shorter.len() implies is_space(#[trigger] shorter[i]) by {
            assert(is_space(gap[i]));
        }
        lemma_one_line_gap(a, shorter);
        assert((a + shorter).push(gap.last()) =~= a + gap);
        assert(is_space(gap[gap.len() - 1]));
        lemma_one_line_push(a + shorter, gap.last());
    }
}

/// White space at its ends makes no difference to a text on one line.
pub proof fn lemma_one_line_trimmed(before: Seq<char>, s: Seq<char>, after: Seq<char>)
    requires
        blank(before),
        blank(after),
    ensures
        one_line(before + s + after) == one_line(s),
{
    lemma_one_line_gap(before + s, after);
    if before.len() > 0 {
        assert(Seq::<char>::empty() + before + s =~= before + s);
        law_gaps_become_one_space(Seq::empty(), before, s);
    } else {
        assert(before + s =~= s);
    }
}

/// The length in bytes is that in UTF-8: nothing for the empty text, and one to four bytes more for
/// each character.
pub proof fn law_byte_len(s: Seq<char>, c: char)
    ensures
        byte_len(seq![]) == 0,
        byte_len(s.push(c)) == byte_len(s) + if c as u32 <= 0x7F {
            1int
        } else if c as u32 <= 0x7FF {
            2
        } else if c as u32 <= 0xFFFF {
            3
        } else {
            4
        },
{
    lemma_byte_len_push(s, c);
}

/// A number is written in digits that mean this number, with no zero in front.
pub proof fn law_numbers_are_written(n: nat)
    ensures
        decimal(n).len() > 0,
        all_digits(decimal(n)),
        decimal_value(decimal(n)) == n,
        n > 0 ==> decimal(n)[0] != '0',
    decreases n,
{
    if n < 10 {
        assert(decimal(n).drop_last() =~= Seq::<char>::empty());
        assert(decimal_value(Seq::<char>::empty()) == 0);
    } else {
        law_numbers_are_written(n / 10);
        let d = decimal(n / 10);
        assert(decimal(n).drop_last() =~= d);
        assert forall|i: int| 0 <= i < decimal(n).len() implies is_digit(
            #[trigger] decimal(n)[i],
        ) by {
            if i < d.len() {
                assert(is_digit(d[i]));
            }
        }
    }
}

/// So many zeros.
pub open spec fn zeros(k: nat) -> Seq<char> {
    Seq::new(k, |i: int| '0')
}

/// A number as it may be spelled: a sign or none, zeros in front, and its digits.
pub open spec fn spelling(plus: bool, k: nat, n: nat) -> Seq<char> {
    if plus {
        seq!['+'] + (zeros(k) + decimal(n))
    } else {
        zeros(k) + decimal(n)
    }
}

proof fn lemma_value_of_zeros(k: nat, d: Seq<char>)
    requires
        all_digits(d),
    ensures
        all_digits(zeros(k) + d),
        decimal_value(zeros(k) + d) == decimal_value(d),
    decreases k + d.len(),
{
    let s = zeros(k) + d;
    assert forall|i: int| 0 <= i < s.len() implies is_digit(#[trigger] s[i]) by {
        if i >= k {
            assert(is_digit(d[i - k]));
        }
    }
    if d.len() > 0 {
        let t = d.drop_last();
        assert forall|i: int| 0 <= i < t.len() implies is_digit(#[trigger] t[i]) by {
            assert(is_digit(d[i]));
        }
        lemma_value_of_zeros(k, t);
        assert(s.drop_last() =~= zeros(k) + t);
        assert(s.last() == d.last());
    } else if k > 0 {
        lemma_value_of_zeros((k - 1) as nat, d);
        assert(s.drop_last() =~= zeros((k - 1) as nat) + d);
    } else {
        assert(s =~= d);
    }
}

/// Every number that 64 bits hold is read as what it is, with or without a sign or zeros in front,
/// and no larger number is read.
pub proof fn law_numbers_are_read(plus: bool, k: nat, n: nat)
    ensures
        spelled_u64(spelling(plus, k, n)) == if n <= u64::MAX {
            Some(n as u64)
        } else {
            None
        },
{
    law_numbers_are_written(n);
    lemma_value_of_zeros(k, decimal(n));
    let digits = zeros(k) + decimal(n);
    assert(is_digit(digits[0]));
    if plus {
        assert(spelling(plus, k, n).drop_first() =~= digits);
    }
}

/// A spelled number neither begins nor ends with white space.
pub proof fn lemma_spelling_ends(plus: bool, k: nat, n: nat)
    ensures
        spelling(plus, k, n).len() > 0,
        !is_space(spelling(plus, k, n)[0]),
        !is_space(spelling(plus, k, n).last()),
{
    law_numbers_are_written(n);
    let d = decimal(n);
    assert(is_digit(d[0]) && is_digit(d[d.len() - 1]));
    assert(spelling(plus, k, n).last() == d.last());
}

/// Nothing but a number is read.
pub proof fn law_only_numbers_are_read(s: Seq<char>)
    requires
        spelled_u64(s) is Some,
    ensures
        exists|plus: bool, k: nat| s == #[trigger] spelling(plus, k, spelled_u64(s)->0 as nat),
{
    let plus = s.len() > 0 && s[0] == '+';
    let digits = if plus {
        s.drop_first()
    } else {
        s
    };
    let k = lemma_zeros_and_number(digits);
    let n = spelled_u64(s)->0 as nat;
    assert(n == decimal_value(digits));
    if plus {
        assert(s =~= seq!['+'] + digits);
    }
    assert(s == spelling(plus, k, n));
}

proof fn lemma_zeros_and_number(s: Seq<char>) -> (k: nat)
    requires
        s.len() > 0,
        all_digits(s),
    ensures
        s == zeros(k) + decimal(decimal_value(s)),
    decreases s.len(),
{
    let t = s.drop_last();
    assert(is_digit(s[s.len() - 1]));
    let x = (s.last() as u32 - '0' as u32) as nat;
    assert(digit_char(x) == s.last());
    if t.len() == 0 {
        assert(decimal_value(t) == 0);
        assert(s =~= zeros(0) + decimal(x));
        0
    } else {
        assert forall|i: int| 0 <= i < t.len() implies is_digit(#[trigger] t[i]) by {
            assert(is_digit(s[i]));
        }
        let k = lemma_zeros_and_number(t);
        let v = decimal_value(t);
        assert(decimal_value(s) == 10 * v + x);
        if v == 0 {
            assert(digit_char(0) == '0');
            assert(decimal(0) =~= seq!['0']);
            assert(t =~= zeros(k + 1));
            assert(s =~= t.push(s.last()));
            assert(s =~= zeros(k + 1) + decimal(x));
            k + 1
        } else {
            assert((10 * v + x) / 10 == v && (10 * v + x) % 10 == x) by (nonlinear_arith)
                requires
                    x < 10,
            ;
            assert(decimal(10 * v + x) =~= decimal(v).push(s.last()));
            assert(s =~= t.push(s.last()));
            assert(s =~= zeros(k) + decimal(10 * v + x));
            k
        }
    }
}

} // verus!
