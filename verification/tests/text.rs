use kiro_provider::text::bytes_of;
use kiro_provider::text::contains;
use kiro_provider::text::is_whitespace;
use kiro_provider::text::parse_u64;
use kiro_provider::text::prefix_within;
use kiro_provider::text::push_decimal;
use kiro_provider::text::same_text;
use kiro_provider::text::to_ascii_lowercase;
use kiro_provider::text::to_ascii_uppercase;
use kiro_provider::text::to_one_line;
use kiro_provider::text::trim;

const SAMPLES: [&str; 9] = [
    "",
    " ",
    "abc",
    "  a\tb \n c\u{3000}",
    "\u{85}x\u{2028}y\u{205f}",
    "AbC \u{c4}\u{e4} zZ@[`{",
    "\u{4e2d}\u{6587} text",
    "\u{1f600}\u{1f600}",
    "\u{200b}a\u{feff}",
];

#[test]
fn whitespace_is_that_of_unicode() {
    for c in '\0'..=char::MAX {
        assert_eq!(is_whitespace(c), c.is_whitespace(), "{:?}", c);
    }
}

#[test]
fn text_functions_agree_with_std() {
    for s in SAMPLES.iter() {
        assert_eq!(trim(s), s.trim());
        assert_eq!(to_one_line(s), s.split_whitespace().collect::<Vec<_>>().join(" "));
        assert_eq!(to_ascii_lowercase(s), s.to_ascii_lowercase());
        assert_eq!(to_ascii_uppercase(s), s.to_ascii_uppercase());
        assert_eq!(bytes_of(s), s.len());
        for t in SAMPLES.iter() {
            assert_eq!(contains(s, t), s.contains(t));
            assert_eq!(same_text(s, t), s == t);
        }
        for max in 0..20 {
            let mut end = max.min(s.len());
            while !s.is_char_boundary(end) {
                end -= 1;
            }
            assert_eq!(prefix_within(s, max), &s[..end]);
        }
    }
}

#[test]
fn numbers_are_read_as_std_reads_them() {
    let samples = [
        "", "+", "-", "0", "+0", "007", "120", "+5", "++5", "-5", " 5", "5 ", "5a", "1_000",
        "18446744073709551615", "18446744073709551616", "00000000000000000000000000000001",
        "99999999999999999999999", "\u{0661}",
    ];
    for s in samples.iter() {
        assert_eq!(parse_u64(s), s.parse::<u64>().ok(), "{:?}", s);
    }
}

#[test]
fn numbers_are_written_as_std_writes_them() {
    for n in [0, 7, 10, 99, 100, 12_345, usize::MAX] {
        let mut out = String::from("n=");
        push_decimal(&mut out, n);
        assert_eq!(out, format!("n={}", n));
    }
}
