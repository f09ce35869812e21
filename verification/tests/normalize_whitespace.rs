use normy::context::Context;
use normy::lang::data::ENG;
use normy::stage::normalize_whitespace::{
    collapse_whitespace, collapse_whitespace_unicode, normalize_whitespace_full, trim_whitespace,
    trim_whitespace_unicode, NormalizeWhitespace,
};
use normy::stage::Stage;
use std::borrow::Cow;

fn ctx() -> Context {
    Context::new(ENG)
}

#[test]
fn configuration_matrix() {
    let cases = [
        (" hello\u{00A0}\u{00A0}world ", normalize_whitespace_full(), "hello world", "FULL: collapse + trim + normalize"),
        ("a\t\t\n\nb", normalize_whitespace_full(), "a b", "FULL: multi-char ASCII WS"),
        (" \u{00A0} a \u{202F} b \u{3000} ", normalize_whitespace_full(), "a b", "FULL: mixed Unicode WS"),
        (" a b ", collapse_whitespace(), " a b ", "COLLAPSE: preserve leading/trailing spaces"),
        (
            "a\u{00A0}\u{00A0}b",
            collapse_whitespace(),
            "a\u{00A0}\u{00A0}b",
            "COLLAPSE: preserve Unicode WS when normalize_unicode=false",
        ),
        (" a b ", trim_whitespace(), "a b", "TRIM: remove edges, preserve internal"),
        (
            "\u{00A0}a\u{00A0}",
            trim_whitespace(),
            "\u{00A0}a\u{00A0}",
            "TRIM: preserve Unicode WS when normalize_unicode=false",
        ),
        (
            "\u{00A0}hello\u{00A0}world\u{205F}",
            trim_whitespace_unicode(),
            "hello\u{00A0}world",
            "TRIM_UNICODE: trim Unicode edges, preserve internal",
        ),
        ("a\u{00A0}\u{1680}b", collapse_whitespace_unicode(), "a b", "COLLAPSE_UNICODE: normalize all Unicode WS"),
        (
            "a\u{00A0}b",
            NormalizeWhitespace { collapse: false, trim: false, normalize_unicode: true, replacement_char: ' ' },
            "a\u{00A0}b",
            "normalize_unicode alone: no-op (modifier flag, not standalone)",
        ),
        (
            "a \u{00A0}b",
            normalize_whitespace_full().replace_whitespace_with('\u{200B}'),
            "a\u{200B}b",
            "Custom replacement: ZWSP instead of space",
        ),
        (
            " a b ",
            NormalizeWhitespace { collapse: false, trim: true, normalize_unicode: true, replacement_char: '-' },
            "a b",
            "Custom replacement + trim only: no collapse, so no replacement used",
        ),
        (
            "a\u{00A0} \u{00A0}b",
            collapse_whitespace(),
            "a\u{00A0} \u{00A0}b",
            "COLLAPSE: Unicode WS untouched when normalize_unicode=false",
        ),
    ];
    for (input, stage, expected, desc) in cases {
        let result = stage.apply(Cow::Borrowed(input), &ctx()).unwrap();
        assert_eq!(result.as_ref(), expected, "Failed: {} | Input: {:?}", desc, input);
    }
}

#[test]
fn trim_unicode_matches_rust_str_trim() {
    let stage = trim_whitespace_unicode();
    let inputs = [
        " hello ",
        "\u{00A0}hello\u{00A0}",
        "¡\u{a0}¡\u{205f}",
        "\u{3000}test\u{2028}",
        "\t\n\rtext\t\n\r",
        "\u{2003}\u{2004}text\u{2005}",
    ];
    for &input in &inputs {
        let result = stage.apply(Cow::Borrowed(input), &ctx()).unwrap();
        assert_eq!(result.as_ref(), input.trim(), "TRIM_WHITESPACE_UNICODE must match str::trim() for: {:?}", input);
    }
}

#[test]
fn typography_zero_copy() {
    let stage = normalize_whitespace_full();
    let clean_texts = [
        "Hello \"world\"… naïve café — no extra spaces",
        "\"smart quotes\" and 'single quotes'",
        "em—dash and en–dash",
        "ellipsis… and more",
        "café résumé naïve",
    ];
    for text in clean_texts {
        assert!(!stage.needs_apply(text, &ctx()).unwrap(), "Typography should not trigger needs_apply: {:?}", text);
    }
}
