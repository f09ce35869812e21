use normy::context::Context;
use normy::lang::data::{ENG, JPN, VIE, ZHO};
use normy::normy::Normy;
use normy::stage::case_fold::CaseFold;
use normy::stage::cjk_unigram::CjkUnigram;
use normy::stage::normalize_whitespace::{
    collapse_whitespace, normalize_whitespace_full, trim_whitespace, trim_whitespace_unicode,
};
use normy::stage::remove_diacritics::RemoveDiacritics;
use normy::stage::segment_words::SegmentWords;
use normy::stage::strip_html::StripHtml;
use normy::stage::strip_control_chars::StripControlChars;
use normy::stage::strip_format_controls::StripFormatControls;
use normy::stage::trim::Trim;
use normy::stage::unify_width::UnifyWidth;
use normy::stage::{Stage, StaticFusableStage};
use std::borrow::Cow;

fn apply_str<S: Stage>(s: &S, text: &str, ctx: &Context) -> String {
    s.apply(Cow::Borrowed(text), ctx).unwrap().into_owned()
}

#[test]
fn vertical_tab_is_classified_alike_on_every_path() {
    let ctx = Context::new(ENG);
    let trim = trim_whitespace();
    assert!(!trim.needs_apply("\u{B}é", &ctx).unwrap());
    assert_eq!(apply_str(&trim, "\u{B}é", &ctx), "\u{B}é");
    assert!(!trim.needs_apply("\u{B}e", &ctx).unwrap());
    assert_eq!(apply_str(&trim, "\u{B}e", &ctx), "\u{B}e");
    let collapse = collapse_whitespace();
    assert!(!collapse.needs_apply("a\u{B}\u{B}b", &ctx).unwrap());
    assert_eq!(apply_str(&collapse, "a\u{B}\u{B}b", &ctx), "a\u{B}\u{B}b");
    assert_eq!(collapse.fused_apply("a\u{B}\u{B}b", &ctx), "a\u{B}\u{B}b");
    let full = normalize_whitespace_full();
    assert!(full.needs_apply("a\u{B}b", &ctx).unwrap());
    assert_eq!(apply_str(&full, "a\u{B}b", &ctx), "a b");
    assert_eq!(full.fused_apply("a\u{B}b", &ctx), "a b");
    assert_eq!(apply_str(&full, "a\u{B}\u{B}b é", &ctx), "a b é");
    assert_eq!(full.fused_apply("a\u{B}\u{B}b é", &ctx), "a b é");
}

#[test]
fn whitespace_quick_check_is_exact_on_samples() {
    let ctx = Context::new(ENG);
    let configs = [
        normalize_whitespace_full(),
        collapse_whitespace(),
        trim_whitespace(),
        trim_whitespace_unicode(),
    ];
    let samples = [
        "", "a", " a", "a ", "a  b", "a \tb", "a\u{B}b", "\u{3000}x", "x\u{3000}y", "\u{B}é", "é  é",
        "clean text",
    ];
    for c in configs {
        for s in samples {
            let out = apply_str(&c, s, &ctx);
            assert_eq!(c.needs_apply(s, &ctx).unwrap(), out != s, "{c:?} on {s:?}");
            assert_eq!(c.fused_apply(s, &ctx), out, "{c:?} on {s:?}");
            assert_eq!(apply_str(&c, &out, &ctx), out, "{c:?} on {s:?}");
        }
    }
}

#[test]
fn unicode_trim_is_str_trim() {
    let ctx = Context::new(ENG);
    let t = trim_whitespace_unicode();
    for s in ["  a b  ", "\u{3000}x\u{A0}", "\u{B}\t x \u{2003}", "", "   ", "a"] {
        assert_eq!(apply_str(&t, s, &ctx), s.trim());
    }
}

#[test]
fn empty_fold_map_is_one_to_one() {
    let mut entry = Context::new(ENG).lang_entry.duplicate();
    entry.set_fold_map(Vec::new());
    assert!(entry.has_one_to_one_folds());
    assert!(!entry.has_fold_map());
}

#[test]
fn diacritic_check_sees_spacing_marks_beside_a_base_map() {
    let ctx = Context::new(VIE);
    let out = apply_str(&RemoveDiacritics, "x\u{301}", &ctx);
    assert_eq!(RemoveDiacritics.needs_apply("x\u{301}", &ctx).unwrap(), out != "x\u{301}");
}

#[test]
fn case_fold_adapter_emits_the_full_lowercase() {
    let ctx = Context::new(ENG);
    assert_eq!(apply_str(&CaseFold, "İ", &ctx), "i\u{307}");
    assert_eq!(CaseFold.fused_apply("İ", &ctx), "i\u{307}");
    let normy = Normy::builder().lang(ENG).add_stage(CaseFold).add_stage(UnifyWidth).build();
    assert!(normy.uses_fusion());
    assert_eq!(normy.normalize("İx").unwrap(), normy.normalize_no_fusion("İx").unwrap());
    assert_eq!(normy.normalize("İx").unwrap(), "i\u{307}x");
}

#[test]
fn strip_html_hands_back_untouched_text() {
    let ctx = Context::new(ENG);
    for s in ["plain text > ok \"quoted\"", "", "a &unknown b"] {
        let out = StripHtml.apply(Cow::Borrowed(s), &ctx).unwrap();
        assert!(matches!(out, Cow::Borrowed(_)), "{s:?}");
        assert_eq!(out, s);
    }
}

#[test]
fn segment_words_hands_back_untouched_text() {
    let eng = Context::new(ENG);
    let out = SegmentWords.apply(Cow::Borrowed("Hello world"), &eng).unwrap();
    assert!(matches!(out, Cow::Borrowed("Hello world")));
    let zho = Context::new(ZHO);
    let out = SegmentWords.apply(Cow::Borrowed("Hello world"), &zho).unwrap();
    assert!(matches!(out, Cow::Borrowed("Hello world")));
    assert_eq!(SegmentWords.apply(Cow::Borrowed("你好世界"), &zho).unwrap(), "你 好 世 界");
}

fn check_exact<S: Stage>(stage: &S, samples: &[&str], ctx: &Context) {
    for &t in samples {
        let out = apply_str(stage, t, ctx);
        assert_eq!(stage.needs_apply(t, ctx).unwrap(), out != t, "{} on {t:?}", stage.name());
    }
}

#[test]
fn quick_checks_are_exact_on_samples() {
    let ctx = Context::new(ENG);
    let samples = [
        "", "plain", " pad ", "a\u{0}b", "x\u{7F}", "zero\u{200B}width", "ＡＢＣ", "\u{3000}",
        "\u{A0}nbsp", "tab\t",
    ];
    check_exact(&Trim, &samples, &ctx);
    check_exact(&UnifyWidth, &samples, &ctx);
    check_exact(&StripControlChars, &samples, &ctx);
    check_exact(&StripFormatControls, &samples, &ctx);
}

#[test]
fn cjk_unigram_leaves_other_languages_alone() {
    let jpn = Context::new(JPN);
    assert!(!CjkUnigram.needs_apply("日本語", &jpn).unwrap());
    let out = CjkUnigram.apply(Cow::Borrowed("日本語"), &jpn).unwrap();
    assert!(matches!(out, Cow::Borrowed("日本語")));
    assert_eq!(CjkUnigram.fused_apply("日本語", &jpn), "日本語");
    let zho = Context::new(ZHO);
    assert_eq!(CjkUnigram.apply(Cow::Borrowed("日本語"), &zho).unwrap(), "日 本 語");
    assert_eq!(CjkUnigram.fused_apply("日本語", &zho), "日 本 語");
}
