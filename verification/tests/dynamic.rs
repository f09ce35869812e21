use normy::context::Context;
use normy::lang::data::{ENG, TUR};
use normy::normy::Normy;
use normy::process::{DynamicProcess, Process};
use normy::stage::lower_case::LowerCase;
use normy::stage::normalize_whitespace::normalize_whitespace_full;
use normy::stage::trim::Trim;
use normy::stage::Stage;
use std::borrow::Cow;
use std::sync::Arc;

#[test]
fn dynamic_builder_runs_stages_in_order() {
    let normy = Normy::dynamic_builder()
        .lang(ENG)
        .add_arc_stage(Arc::new(LowerCase))
        .add_arc_stage(Arc::new(normalize_whitespace_full()))
        .build();
    let out = normy.normalize("  HeLLo   WORLD  ").unwrap();
    assert_eq!(out, "hello world");
}

#[test]
fn dynamic_builder_hands_back_untouched_text() {
    let normy = Normy::dynamic_builder()
        .add_arc_stage(Arc::new(LowerCase))
        .add_arc_stage(Arc::new(Trim))
        .build();
    let out = normy.normalize("already clean").unwrap();
    assert!(matches!(out, Cow::Borrowed(_)));
    assert_eq!(out, "already clean");
}

#[test]
fn dynamic_builder_follows_the_language() {
    let tur = Normy::dynamic_builder().lang(TUR).add_arc_stage(Arc::new(LowerCase)).build();
    assert_eq!(tur.normalize("İSTANBUL").unwrap(), "istanbul");
}

#[test]
fn dynamic_and_static_chains_agree() {
    let dynamic = Normy::dynamic_builder()
        .add_arc_stage(Arc::new(Trim))
        .add_arc_stage(Arc::new(LowerCase))
        .build();
    let fixed = Normy::builder().add_stage(Trim).add_stage(LowerCase).build();
    for s in ["", "  ABC  ", "x", "Ünïcödé  ", "\u{3000}全角\u{3000}"] {
        assert_eq!(dynamic.normalize(s).unwrap(), fixed.normalize_no_fusion(s).unwrap());
    }
}

#[test]
fn empty_dynamic_process_is_identity() {
    let ctx = Context::new(ENG);
    let p = DynamicProcess::new();
    let out = p.process(Cow::Borrowed("Some Text"), &ctx).unwrap();
    assert!(matches!(out, Cow::Borrowed("Some Text")));
    let stage: Arc<dyn Stage> = Arc::new(Trim);
    assert_eq!(stage.name(), "trim");
}
