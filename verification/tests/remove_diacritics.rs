use normy::context::Context;
use normy::lang::data::{ARA, CES, DEU, ENG, FRA, HEB, ITA, NLD, POL, POR, SPA};
use normy::stage::remove_diacritics::RemoveDiacritics;
use normy::stage::Stage;
use std::borrow::Cow;

#[test]
fn test_language_isolation_slavic() {
    let stage = RemoveDiacritics;
    let input = "Příliš žluťoučký kůň w Szczecinie mówi po polsku.";
    let ces_ctx = Context::new(CES);
    let ces_result = stage.apply(Cow::Borrowed(input), &ces_ctx).unwrap();
    assert!(ces_result.contains("Prílis"), "Czech should strip ř→r but preserve í");
    assert!(ces_result.contains("mówi"), "Czech should preserve Polish ó (not in Czech rules)");
    let pol_ctx = Context::new(POL);
    let pol_result = stage.apply(Cow::Borrowed(input), &pol_ctx).unwrap();
    assert!(pol_result.contains("mowi"), "Polish should strip ó→o");
}

#[test]
fn test_language_isolation_arabic_latin() {
    let stage = RemoveDiacritics;
    let ctx = Context::new(ARA);
    let input = "café مَرْحَبًا résumé";
    let result = stage.apply(Cow::Borrowed(input), &ctx).unwrap();
    assert!(result.contains("مرحبا"), "Arabic diacritics should be stripped");
    assert!(result.contains("café"), "Latin accents should be preserved in Arabic context");
    assert!(result.contains("résumé"), "Latin accents should be preserved in Arabic context");
}

#[test]
fn test_spanish_distinct_letter_preservation() {
    let stage = RemoveDiacritics;
    let ctx = Context::new(SPA);
    let input = "Niño";
    let result = stage.apply(Cow::Borrowed(input), &ctx).unwrap();
    assert_eq!(result, "Niño", "Spanish ñ should be preserved (distinct letter, not diacritic)");
    assert_eq!(stage.apply(Cow::Borrowed("café"), &ctx).unwrap(), "cafe", "Spanish acute accents should be stripped");
    assert_eq!(stage.apply(Cow::Borrowed("Campeón"), &ctx).unwrap(), "Campeon", "Spanish accents should be stripped");
}

#[test]
fn test_hebrew_nikkud_removal() {
    let stage = RemoveDiacritics;
    let ctx = Context::new(HEB);
    let input = "שָׁלוֹם";
    assert!(stage.needs_apply(input, &ctx).unwrap(), "Hebrew with nikkud should trigger needs_apply");
    let result = stage.apply(Cow::Borrowed(input), &ctx).unwrap();
    assert_eq!(result, "שלום", "Hebrew nikkud should be removed");
    let clean = "שלום";
    assert!(!stage.needs_apply(clean, &ctx).unwrap(), "Clean Hebrew should not trigger needs_apply");
}

#[test]
fn test_mixed_scripts_arabic() {
    let stage = RemoveDiacritics;
    let ctx = Context::new(ARA);
    let input = "Hello مَرْحَبًا World";
    let result = stage.apply(Cow::Borrowed(input), &ctx).unwrap();
    assert_eq!(result, "Hello مرحبا World", "Latin text should pass through, Arabic diacritics stripped");
}

#[test]
fn test_languages_without_rules_skip() {
    let stage = RemoveDiacritics;
    for &lang in &[ENG, DEU, NLD] {
        let ctx = Context::new(lang);
        assert!(
            !ctx.lang_entry.has_pre_composed_to_base_map_or_spacing_diacritics(),
            "{:?} should not have diacritic rules",
            lang
        );
        assert!(!stage.needs_apply("test café résumé", &ctx).unwrap(), "{:?} should skip diacritic removal", lang);
    }
}

#[test]
fn test_portuguese_comprehensive() {
    let stage = RemoveDiacritics;
    let ctx = Context::new(POR);
    let input = "São Luís amanhã maçã";
    let expected = "Sao Luis amanha maca";
    assert_eq!(stage.apply(Cow::Borrowed(input), &ctx).unwrap(), expected, "Portuguese diacritics should be fully stripped");
}

#[test]
fn test_italian_grave_acute() {
    let stage = RemoveDiacritics;
    let ctx = Context::new(ITA);
    let input = "perché caffè città";
    let expected = "perche caffe citta";
    assert_eq!(stage.apply(Cow::Borrowed(input), &ctx).unwrap(), expected, "Italian grave and acute accents should be stripped");
}

#[test]
fn test_empty_string() {
    let stage = RemoveDiacritics;
    let ctx = Context::new(FRA);
    assert!(!stage.needs_apply("", &ctx).unwrap());
    assert_eq!(stage.apply(Cow::Borrowed(""), &ctx).unwrap(), "");
}

#[test]
fn test_needs_apply_accuracy() {
    let stage = RemoveDiacritics;
    let fra = Context::new(FRA);
    assert!(stage.needs_apply("café", &fra).unwrap());
    assert!(!stage.needs_apply("hello", &fra).unwrap());
    let ara = Context::new(ARA);
    assert!(stage.needs_apply("مَرْحَبًا", &ara).unwrap());
    assert!(!stage.needs_apply("كتاب", &ara).unwrap());
    let eng = Context::new(ENG);
    assert!(!stage.needs_apply("café", &eng).unwrap());
}
