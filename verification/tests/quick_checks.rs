use normy::context::Context;
use normy::lang::data::{DEU, ENG, FRA, TUR, ZHO};
use normy::stage::case_fold::CaseFold;
use normy::stage::lower_case::LowerCase;
use normy::stage::normalization::NfcStage;
use normy::stage::normalize_punctuation::NormalizePunctuation;
use normy::stage::remove_diacritics::RemoveDiacritics;
use normy::stage::strip_html::StripHtml;
use normy::stage::strip_markdown::StripMarkdown;
use normy::stage::transliterate::Transliterate;
use normy::stage::Stage;
use std::borrow::Cow;

fn apply_str<S: Stage>(s: &S, text: &str, ctx: &Context) -> String {
    s.apply(Cow::Borrowed(text), ctx).unwrap().into_owned()
}

#[test]
fn punctuation_quick_check_sees_nul() {
    let ctx = Context::new(ENG);
    assert!(NormalizePunctuation.needs_apply("a\u{0}b", &ctx).unwrap());
    assert_eq!(apply_str(&NormalizePunctuation, "a\u{0}b", &ctx), "ab");
    assert!(!NormalizePunctuation.needs_apply("plain - text", &ctx).unwrap());
}

#[test]
fn markdown_quick_check_sees_what_the_parser_changes() {
    let ctx = Context::new(ENG);
    assert!(StripMarkdown.needs_apply("  hello", &ctx).unwrap());
    assert_eq!(apply_str(&StripMarkdown, "  hello", &ctx), "hello");
    assert!(StripMarkdown.needs_apply("1) item", &ctx).unwrap());
    assert_eq!(apply_str(&StripMarkdown, "1) item", &ctx), "item");
    assert!(StripMarkdown.needs_apply("a &amp; b", &ctx).unwrap());
    assert_eq!(apply_str(&StripMarkdown, "a &amp; b", &ctx), "a & b");
    assert!(StripMarkdown.needs_apply("line one\n\nline two", &ctx).unwrap());
    assert_eq!(apply_str(&StripMarkdown, "line one\n\nline two", &ctx), "line one\nline two");
    assert!(!StripMarkdown.needs_apply("line one\nline two", &ctx).unwrap());
    assert!(StripMarkdown.needs_apply("a\n- b", &ctx).unwrap());
    assert!(!StripMarkdown.needs_apply("array[0] and [x] done", &ctx).unwrap());
    assert!(!StripMarkdown.needs_apply("plain words here", &ctx).unwrap());
    let out = StripMarkdown.apply(Cow::Borrowed("plain words here"), &ctx).unwrap();
    assert!(matches!(out, Cow::Borrowed(_)));
    assert_eq!(out, "plain words here");
}

#[test]
fn html_stripping_twice_is_stripping_once() {
    let ctx = Context::new(ENG);
    for input in [
        "<div><p>Hello world</p></div>",
        "<h1>Title</h1><p>Text</p>",
        "<script>x</script>text",
        "a > b",
        "<!-- c --> v",
    ] {
        let once = apply_str(&StripHtml, input, &ctx);
        let twice = apply_str(&StripHtml, &once, &ctx);
        assert_eq!(once, twice, "{input:?}");
    }
}

#[test]
fn html_quick_check_is_exact_without_references() {
    let ctx = Context::new(ENG);
    assert!(!StripHtml.needs_apply("a > b", &ctx).unwrap());
    assert_eq!(apply_str(&StripHtml, "a > b", &ctx), "a > b");
    assert!(StripHtml.needs_apply("<b>x</b>", &ctx).unwrap());
    assert_eq!(apply_str(&StripHtml, "<b>x</b>", &ctx), "x");
    assert!(StripHtml.needs_apply("x<", &ctx).unwrap());
    assert_eq!(apply_str(&StripHtml, "x<", &ctx), "x");
}

#[test]
fn transliteration_quick_check_follows_the_table() {
    let deu = Context::new(DEU);
    assert!(Transliterate.needs_apply("Müller", &deu).unwrap());
    assert_eq!(apply_str(&Transliterate, "Müller", &deu), "Mueller");
    assert!(!Transliterate.needs_apply("Mueller", &deu).unwrap());
    let eng = Context::new(ENG);
    assert!(!Transliterate.needs_apply("Müller", &eng).unwrap());
}

#[test]
fn diacritics_quick_check_follows_the_tables() {
    let fra = Context::new(FRA);
    assert!(RemoveDiacritics.needs_apply("café", &fra).unwrap());
    assert_eq!(apply_str(&RemoveDiacritics, "café", &fra), "cafe");
    assert!(!RemoveDiacritics.needs_apply("cafe", &fra).unwrap());
}

#[test]
fn lowercase_ascii_quick_check() {
    let eng = Context::new(ENG);
    assert!(!LowerCase.needs_apply("hello", &eng).unwrap());
    assert!(LowerCase.needs_apply("Hello", &eng).unwrap());
    let tur = Context::new(TUR);
    assert!(LowerCase.needs_apply("I", &tur).unwrap());
    assert_eq!(apply_str(&LowerCase, "I", &tur), "ı");
}

#[test]
fn case_fold_quick_check_is_exact_on_ascii() {
    let ctx = Context::new(ENG);
    for (text, changes) in [("hello", false), ("Hello", true), ("", false), ("a-b 9", false)] {
        assert_eq!(CaseFold.needs_apply(text, &ctx).unwrap(), changes, "{text:?}");
        assert_eq!(apply_str(&CaseFold, text, &ctx) != text, changes, "{text:?}");
    }
    let deu = Context::new(DEU);
    assert!(CaseFold.needs_apply("straße", &deu).unwrap());
    assert_eq!(apply_str(&CaseFold, "straße", &deu), "strasse");
}

#[test]
fn normalized_text_comes_back_borrowed() {
    let ctx = Context::new(ENG);
    let out = NfcStage.apply(Cow::Borrowed("café"), &ctx).unwrap();
    assert!(matches!(out, Cow::Borrowed(_)));
    assert_eq!(out, "café");
    assert_eq!(apply_str(&NfcStage, "cafe\u{301}", &ctx), "café");
}

#[test]
fn modified_context_leaves_the_built_in_table_alone() {
    let modified = Context::with_modified(ZHO, |e| e.set_unigram_cjk(false));
    assert!(!modified.lang_entry.needs_unigram_cjk());
    assert!(Context::new(ZHO).lang_entry.needs_unigram_cjk());
}

#[test]
fn html_one_pass_keeps_cdata_and_decodes_once() {
    let ctx = Context::new(ENG);
    assert_eq!(apply_str(&StripHtml, "&amp;lt;", &ctx), "&lt;");
    assert_eq!(apply_str(&StripHtml, "<![CDATA[<b>x</b>]]>", &ctx), "<b>x</b>");
}
