use normy::context::Context;
use normy::lang::data::{DEU, ENG, NLD, TUR};
use normy::stage::fold_case::FoldCase;
use normy::stage::Stage;
use std::borrow::Cow;

#[test]
fn test_english_basic() {
    let stage = FoldCase;
    let ctx = Context::new(ENG);
    assert!(stage.needs_apply("HELLO", &ctx).unwrap());
    assert!(!stage.needs_apply("hello", &ctx).unwrap());
    let result = stage.apply(Cow::Borrowed("HELLO"), &ctx).unwrap();
    assert_eq!(result, "hello");
}

#[test]
fn fold_case_test_turkish_dotted_i() {
    let stage = FoldCase;
    let ctx = Context::new(TUR);
    let result = stage.apply(Cow::Borrowed("İSTANBUL"), &ctx).unwrap();
    assert_eq!(result, "istanbul");
    let result = stage.apply(Cow::Borrowed("ISPARTA"), &ctx).unwrap();
    assert_eq!(result, "ısparta");
}

#[test]
fn test_german_eszett() {
    let stage = FoldCase;
    let ctx = Context::new(DEU);
    let result = stage.apply(Cow::Borrowed("Straße"), &ctx).unwrap();
    assert_eq!(result, "strasse");
    let result = stage.apply(Cow::Borrowed("GROẞ"), &ctx).unwrap();
    assert_eq!(result, "gross");
}

#[test]
fn test_dutch_ij_uppercase() {
    let stage = FoldCase;
    let ctx = Context::new(NLD);
    let result = stage.apply(Cow::Borrowed("IJssel"), &ctx).unwrap();
    assert_eq!(result, "ijssel");
    let result = stage.apply(Cow::Borrowed("IJZER"), &ctx).unwrap();
    assert_eq!(result, "ijzer");
}

#[test]
fn test_dutch_ij_lowercase() {
    let stage = FoldCase;
    let ctx = Context::new(NLD);
    let result = stage.apply(Cow::Borrowed("ijssel"), &ctx).unwrap();
    assert_eq!(result, "ijssel");
}

#[test]
fn test_dutch_ij_ligature() {
    let stage = FoldCase;
    let ctx = Context::new(NLD);
    let result = stage.apply(Cow::Borrowed("Ĳssel"), &ctx).unwrap();
    assert_eq!(result, "ijssel");
}

#[test]
fn test_dutch_ij_not_sequence() {
    let stage = FoldCase;
    let ctx = Context::new(NLD);
    let result = stage.apply(Cow::Borrowed("IK"), &ctx).unwrap();
    assert_eq!(result, "ik");
}

#[test]
fn test_dutch_ij_idempotency() {
    let stage = FoldCase;
    let ctx = Context::new(NLD);
    let text = "IJssel";
    let first = stage.apply(Cow::Borrowed(text), &ctx).unwrap();
    let second = stage.apply(Cow::Borrowed(&first), &ctx).unwrap();
    assert_eq!(first, "ijssel");
    assert_eq!(first, second, "Should be idempotent");
}

#[test]
fn test_char_mapper_eligibility() {
    let stage = FoldCase;
    let ctx = Context::new(ENG);
    assert!(stage.as_char_mapper(&ctx).is_some());
    let ctx = Context::new(TUR);
    assert!(stage.as_char_mapper(&ctx).is_some());
    let ctx = Context::new(DEU);
    assert!(stage.as_char_mapper(&ctx).is_none());
    let ctx = Context::new(NLD);
    assert!(stage.as_char_mapper(&ctx).is_none());
}

#[test]
fn fold_case_test_ascii_fast_path() {
    let stage = FoldCase;
    let ctx = Context::new(ENG);
    let result = stage.apply(Cow::Borrowed("HELLO123"), &ctx).unwrap();
    assert_eq!(result, "hello123");
}

#[test]
fn test_dutch_ij_uppercase_needs_apply() {
    let stage = FoldCase;
    let ctx = Context::new(NLD);
    let text = "IJssel";
    assert!(stage.needs_apply(text, &ctx).unwrap(), "needs_apply must return true for 'IJssel' in Dutch");
    let result = stage.apply(Cow::Borrowed(text), &ctx).unwrap();
    assert_eq!(result, "ijssel");
}

#[test]
fn test_dutch_ligature_needs_apply() {
    let stage = FoldCase;
    let ctx = Context::new(NLD);
    let text = "Ĳssel";
    assert!(stage.needs_apply(text, &ctx).unwrap());
    let result = stage.apply(Cow::Borrowed(text), &ctx).unwrap();
    assert_eq!(result, "ijssel");
}

#[test]
fn test_german_eszett_lowercase_needs_apply() {
    let stage = FoldCase;
    let ctx = Context::new(DEU);
    let text = "straße";
    assert!(stage.needs_apply(text, &ctx).unwrap());
    let result = stage.apply(Cow::Borrowed(text), &ctx).unwrap();
    assert_eq!(result, "strasse");
}

#[test]
fn test_dutch_ij_lowercase_needs_apply() {
    let stage = FoldCase;
    let ctx = Context::new(NLD);
    let text = "ijssel";
    assert!(!stage.needs_apply(text, &ctx).unwrap());
}

#[test]
fn test_dutch_german_charmapper_contract() {
    let ctx_nld = Context::new(NLD);
    let ctx_deu = Context::new(DEU);
    assert!(FoldCase.as_char_mapper(&ctx_nld).is_none(), "CRITICAL: Dutch needs peek-ahead, cannot use CharMapper");
    assert!(FoldCase.as_char_mapper(&ctx_deu).is_none(), "CRITICAL: German has multi-char folds, cannot use CharMapper");
}
