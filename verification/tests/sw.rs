use normy::context::Context;
use normy::lang::data::{ARA, DEU, ENG, FRA, HEB, JPN, KOR, THA, TUR};
use normy::stage::sw::{needs_segmentation, segment_allocating, SegmentWord, SegmentWordIterator};
use normy::stage::{collect_stream, Stage, StrChars};
use std::borrow::Cow;

#[test]
fn focused_boundary_hiragana_to_kanji() {
    let lang = JPN;
    let stage = SegmentWord;
    let ctx = Context::new(lang);
    let input_1 = "は最高";
    assert!(!stage.needs_apply(input_1, &ctx).unwrap());
    assert!(!needs_segmentation(input_1, lang));
    let expected_1 = "は最高";
    assert_eq!(segment_allocating(input_1, lang), expected_1, "Failure on 'は最高'");
    let input_2 = "こんにちは";
    let expected_2 = "こんにちは";
    assert_eq!(segment_allocating(input_2, lang), expected_2, "Failure on 'こんにちは'");
    let input_3 = "Rustは";
    let expected_3 = "Rust は";
    assert_eq!(segment_allocating(input_3, lang), expected_3, "Failure on 'Rustは'");
}

#[test]
fn focused_boundary_western_to_cjk() {
    let lang = JPN;
    assert_eq!(segment_allocating("o世", lang), "o 世");
    assert_eq!(segment_allocating("25年", lang), "25 年");
    assert_eq!(segment_allocating("Hello世界", lang), "Hello 世界");
}

#[test]
fn test_needs_segmentation() {
    assert!(needs_segmentation("Hello世界", JPN));
    assert!(!needs_segmentation("Hello Rust", ENG));
}

#[test]
fn test_segment_allocating_simple() {
    let input = "Hello世界 Rust";
    let output = segment_allocating(input, JPN);
    assert_eq!(output, "Hello 世界 Rust");
}

#[test]
fn test_segment_allocating_whitespace() {
    let input = "こんにちは   世界\t\nです";
    let expected = "こんにちは 世界 です";
    let output = segment_allocating(input, JPN);
    assert_eq!(output, expected);
}

#[test]
fn test_iterator_basic() {
    let input = "Rustは最高";
    let mut iter = SegmentWordIterator::new(StrChars::new(input), JPN);
    let output: String = collect_stream(&mut iter);
    assert_eq!(output, "Rust は最高");
}

#[test]
fn non_segmented_languages_unchanged() {
    let stage = SegmentWord;
    let text = "Hello世界 Rust";
    let non_segmented = [ENG, TUR, DEU, FRA, ARA, HEB];
    for &lang in &non_segmented {
        let ctx = Context::new(lang);
        assert_eq!(stage.apply(Cow::Borrowed(text), &ctx).unwrap().as_ref(), text);
    }
}

#[test]
fn western_to_script_spaces() {
    let stage = SegmentWord;
    let cases = &[
        ("Hello世界", "Hello 世界"),
        ("Rustは最高", "Rust は最高"),
        ("東京2025年", "東京 2025 年"),
        ("AIとLLM", "AI と LLM"),
    ];
    for &(input, expected) in cases {
        let ctx = Context::new(JPN);
        assert_eq!(stage.apply(Cow::Borrowed(input), &ctx).unwrap().as_ref(), expected);
    }
}

#[test]
fn script_boundaries_and_idempotency() {
    let stage = SegmentWord;
    let input = "世界 Hello";
    let ctx = Context::new(JPN);
    assert_eq!(stage.apply(Cow::Borrowed(input), &ctx).unwrap().as_ref(), input);
    let fused_cases = &[("こんにちは世界", JPN), ("สวัสดีชาวโลก", THA), ("안녕하세요세계", KOR)];
    for &(text, lang) in fused_cases {
        let ctx = Context::new(lang);
        assert_eq!(stage.apply(Cow::Borrowed(text), &ctx).unwrap().as_ref(), text);
    }
    let text = "こんにちは 世界";
    let ctx = Context::new(JPN);
    let once = stage.apply(Cow::Borrowed(text), &ctx).unwrap();
    let twice = stage.apply(Cow::Borrowed(&once), &ctx).unwrap();
    assert_eq!(once, twice);
}

#[test]
fn whitespace_collapsed_stage() {
    let stage = SegmentWord;
    let input = "こんにちは   世界\t\nです";
    let expected = "こんにちは 世界 です";
    let ctx = Context::new(JPN);
    assert_eq!(stage.apply(Cow::Borrowed(input), &ctx).unwrap().as_ref(), expected);
}

#[test]
fn numbers_as_western_stage() {
    let stage = SegmentWord;
    let input = "東京2025年";
    let expected = "東京 2025 年";
    let ctx = Context::new(JPN);
    assert_eq!(stage.apply(Cow::Borrowed(input), &ctx).unwrap().as_ref(), expected);
}
