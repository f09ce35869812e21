use normy::context::Context;
use normy::lang::data::{ARA, DEU, ENG, FRA, JPN, KOR, TUR, ZHO};
use normy::stage::cjk_unigram::{segment_cjk_unigram, CjkUnigram};
use normy::stage::Stage;
use std::borrow::Cow;

#[test]
fn test_unigram_cjk_extended() {
    let cases = &[
        ("", ""),
        ("A", "A"),
        ("中", "中"),
        ("日本語漢字", "日 本 語 漢 字"),
        ("Rust日本語123漢字", "Rust日 本 語123漢 字"),
        ("CJKテスト2025", "CJKテ ス ト2025"),
        ("Hello世界!", "Hello世 界!"),
        ("私はRustとPythonが好き😊2025年", "私 はRustとPythonが 好 き😊2025年"),
        ("漢字ABC漢字123", "漢 字ABC漢 字123"),
        ("東京2024年", "東 京2024年"),
        ("一二三四五六七八九十", "一 二 三 四 五 六 七 八 九 十"),
        ("日 本", "日 本"),
    ];
    for &(input, expected) in cases {
        let output = segment_cjk_unigram(input);
        assert_eq!(output, expected, "Failed on input: {input}");
    }
}

#[test]
fn test_unigram_cjk_zho_enabled() {
    let stage = CjkUnigram;
    let ctx = Context::new(ZHO);
    assert!(stage.needs_apply("中华人民共和国", &ctx).unwrap());
    assert!(stage.needs_apply("北京大学", &ctx).unwrap());
    assert!(!stage.needs_apply("Hello world", &ctx).unwrap());
}

#[test]
fn test_unigram_cjk_jpn_disabled_by_default() {
    let stage = CjkUnigram;
    let ctx = Context::new(JPN);
    assert!(!stage.needs_apply("日本語", &ctx).unwrap());
    assert!(!stage.needs_apply("最高のプログラミング言語", &ctx).unwrap());
    assert!(!stage.needs_apply("漢字漢字漢字", &ctx).unwrap());
}

#[test]
fn test_unigram_cjk_non_cjk_languages_never_run() {
    let stage = CjkUnigram;
    let languages = [ENG, DEU, FRA, TUR, ARA, KOR];
    for &lang in &languages {
        let ctx = Context::new(lang);
        assert!(!stage.needs_apply("東京大学", &ctx).unwrap());
        assert!(!stage.needs_apply("中华人民共和国", &ctx).unwrap());
    }
}

#[test]
fn test_unigram_cjk_correct_segmentation_when_enabled() {
    let stage = CjkUnigram;
    let ctx = Context::new(ZHO);
    let cases = &[
        ("", ""),
        ("中", "中"),
        ("中国人民", "中 国 人 民"),
        ("中华人民共和国", "中 华 人 民 共 和 国"),
        ("北京大学2025", "北 京 大 学2025"),
        ("编程语言Rust", "编 程 语 言Rust"),
        ("Hello世界你好", "Hello世 界 你 好"),
        ("一二三四五六七八九十", "一 二 三 四 五 六 七 八 九 十"),
    ];
    for &(input, expected) in cases {
        let result = stage.apply(Cow::Borrowed(input), &ctx).unwrap();
        assert_eq!(&*result, expected, "Failed on input: {input}");
    }
}

#[test]
fn test_unigram_cjk_basic() {
    let cases = &[
        ("", ""),
        ("中", "中"),
        ("日本語漢字", "日 本 語 漢 字"),
        ("Rust日本語", "Rust日 本 語"),
        ("私はRustが好きです", "私 はRustが 好 き で す"),
        ("東京2024年", "東 京2024年"),
        ("漢字", "漢 字"),
        ("一二三四五", "一 二 三 四 五"),
    ];
    for &(input, expected) in cases {
        let output = normy::stage::unigram_cjk::segment_cjk_unigram(input);
        assert_eq!(output, expected, "Failed on input: {input}");
    }
}
