use normy::context::Context;
use normy::lang::data::{DAN, DEU, ENG, FRA, NLD};
use normy::stage::case_fold::CaseFold;
use normy::stage::lower_case::LowerCase;
use normy::stage::normalization::{NFC, NFD};
use normy::stage::strip_format_controls::StripFormatControls;
use normy::stage::transliterate::Transliterate;
use normy::stage::Stage;
use normy::unicode::is_control;
use std::borrow::Cow;

#[test]
fn lowercase_vs_case_fold_behavior() {
    let ctx_de = Context::new(DEU);
    let ctx_nl = Context::new(NLD);
    assert_eq!(LowerCase.apply(Cow::Borrowed("GROẞ"), &ctx_de).unwrap(), "groß");
    assert_eq!(CaseFold.apply(Cow::Borrowed("GROẞ"), &ctx_de).unwrap(), "gross");
    assert_eq!(LowerCase.apply(Cow::Borrowed("IJssel"), &ctx_nl).unwrap(), "ijssel");
    assert_eq!(CaseFold.apply(Cow::Borrowed("IJssel"), &ctx_nl).unwrap(), "ijssel");
}

#[test]
fn nfc_nfd_round_trip() {
    let ctx = Context::default();
    let test_cases = ["El Niño café naïve", "Résumé", "日本語テスト", "ﬁﬀ½①"];
    for original in test_cases {
        let nfd = NFD.apply(Cow::Borrowed(original), &ctx).unwrap();
        let back_to_nfc = NFC.apply(nfd, &ctx).unwrap();
        let original_nfc = NFC.apply(Cow::Borrowed(original), &ctx).unwrap();
        assert_eq!(back_to_nfc, original_nfc, "Round-trip failed for: {}", original);
    }
}

#[test]
fn test_cc_vs_cf_boundary() {
    assert!(is_control('\u{0000}'));
    assert!(is_control('\u{001F}'));
    assert!(is_control('\u{007F}'));
    assert!(is_control('\u{009F}'));
    assert!(!is_control('A'));
    assert!(!is_control(' '));
    assert!(!is_control('\u{200B}'));
    assert!(!is_control('\u{200E}'));
    assert!(!is_control('\u{FEFF}'));
}

#[test]
fn test_non_latin_scripts() {
    let stage = StripFormatControls;
    let ctx = Context::new(ENG);
    assert_eq!(stage.apply(Cow::Borrowed("مرحبا\u{200F} hello"), &ctx).unwrap(), "مرحبا hello");
    assert_eq!(stage.apply(Cow::Borrowed("你好\u{200B}世界"), &ctx).unwrap(), "你好世界");
    assert_eq!(stage.apply(Cow::Borrowed("\u{FEFF}Привет مرحبا"), &ctx).unwrap(), "Привет مرحبا");
}

#[test]
fn test_language_isolation() {
    let stage = Transliterate;
    let ctx = Context::new(FRA);
    let input = "ŒUVRE Århus Straße";
    let result = stage.apply(Cow::Borrowed(input), &ctx).unwrap();
    assert_eq!(result, "oeUVRE Århus Straße");
    let ctx = Context::new(DAN);
    let result = stage.apply(Cow::Borrowed(input), &ctx).unwrap();
    assert_eq!(result, "ŒUVRE aarhus Straße");
}
