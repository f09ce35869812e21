use normy::context::Context;
use normy::lang::data::ENG;
use normy::stage::replace_fullwidth::ReplaceFullwidth;
use normy::stage::{CharMapper, Stage};
use normy::unicode::fullwidth_to_halfwidth;
use std::borrow::Cow;

fn make_context() -> Context {
    Context::new(ENG)
}

#[test]
fn test_needs_apply_detects_fullwidth() {
    let stage = ReplaceFullwidth;
    assert!(stage.needs_apply("ＡＢＣ", &make_context()).unwrap());
}

#[test]
fn test_needs_apply_false_for_ascii() {
    let stage = ReplaceFullwidth;
    assert!(!stage.needs_apply("ABC 123 !?", &make_context()).unwrap());
}

#[test]
fn test_apply_fullwidth_latin() {
    let stage = ReplaceFullwidth;
    let result = stage.apply(Cow::Borrowed("Ｈｅｌｌｏ Ｗｏｒｌｄ"), &make_context()).unwrap();
    assert_eq!(result, "Hello World");
}

#[test]
fn test_apply_fullwidth_digits_punctuation() {
    let stage = ReplaceFullwidth;
    let result = stage.apply(Cow::Borrowed("１２３４５！＠＃"), &make_context()).unwrap();
    assert_eq!(result, "12345!@#");
}

#[test]
fn test_apply_when_no_changes_returns_borrowed() {
    let stage = ReplaceFullwidth;
    let text = Cow::Borrowed("Plain ASCII text");
    let result = stage.apply(text.clone(), &make_context()).unwrap();
    match result {
        Cow::Borrowed(_) => {}
        _ => panic!("Expected Cow::Borrowed for unchanged ASCII"),
    }
}

#[test]
fn test_char_mapper_map_fullwidth() {
    let stage = ReplaceFullwidth;
    let mapper: &dyn CharMapper = &stage;
    assert_eq!(mapper.map('Ａ', &make_context()), Some('A'));
    assert_eq!(mapper.map('９', &make_context()), Some('9'));
    assert_eq!(mapper.map('！', &make_context()), Some('!'));
    assert_eq!(mapper.map('x', &make_context()), Some('x'));
}

#[test]
fn test_char_mapper_bind_iterates_normalized() {
    let stage = ReplaceFullwidth;
    let mapper: &dyn CharMapper = &stage;
    let collected: String = mapper.bind("ＡＢＣ １２３！", &make_context());
    assert_eq!(collected, "ABC 123!");
}

#[test]
fn test_fullwidth_replace_sanity() {
    let stage = ReplaceFullwidth;
    let text = Cow::Borrowed("Ｔｅｘｔ： １００％ full-width");
    let result = stage.apply(text, &make_context()).unwrap();
    assert_eq!(result, "Text: 100% full-width");
}

#[test]
fn replace_fullwidth_test_replace_fullwidth() {
    let stage = ReplaceFullwidth;
    let text = Cow::Borrowed("Ｈｅｌｌｏ　Ｗｏｒｌｄ！");
    let result = stage.apply(text, &make_context()).unwrap();
    assert_eq!(result, "Hello World!");
}

#[test]
fn test_non_fullwidth_passthrough() {
    assert_eq!(fullwidth_to_halfwidth('A'), 'A');
    assert_eq!(fullwidth_to_halfwidth(' '), ' ');
    assert_eq!(fullwidth_to_halfwidth('中'), '中');
}

#[test]
fn test_fullwidth_ascii() {
    assert_eq!(fullwidth_to_halfwidth('Ａ'), 'A');
    assert_eq!(fullwidth_to_halfwidth('ｚ'), 'z');
    assert_eq!(fullwidth_to_halfwidth('５'), '5');
    assert_eq!(fullwidth_to_halfwidth('！'), '!');
}
