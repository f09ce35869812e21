use normy::context::Context;
use normy::fused_process::FusedProcess;
use normy::lang::behaviour::LocaleBehavior;
use normy::lang::data::{ARA, CAT, CES, DAN, DEU, ENG, FRA, HIN, ISL, JPN, KOR, NLD, NOR, POL, POR, RUS, SPA, SWE, THA, TUR, VIE, ZHO};
use normy::stage::segment_words::SegmentWords;
use normy::stage::transliterate::Transliterate;
use normy::stage::remove_diacritics::RemoveDiacritics;
use normy::normy::{Normy, NormyError};
use normy::pipeline::Pipeline;
use normy::process::{BuildIter, ChainedProcess, EmptyProcess, Process};
use normy::profile::preset::{ascii_fast, machine_translation, minimum, search};
use normy::profile::{Profile, ProfileError};
use normy::stage::cjk_unigram::segment_cjk_unigram;
use normy::stage::lower_case::LowerCase;
use normy::stage::normalization::{NFC, NFKC};
use normy::stage::normalize_punctuation::NormalizePunctuation;
use normy::stage::normalize_whitespace::{normalize_whitespace_full, trim_whitespace_unicode};
use normy::stage::strip_control_chars::StripControlChars;
use normy::stage::strip_html::StripHtml;
use normy::stage::sw::segment_allocating;
use normy::stage::trim::Trim;
use normy::stage::unify_width::UnifyWidth;
use normy::stage::utf8_validate::Utf8Validate;
use normy::stage::validation;
use normy::stage::{Stage, StageError};
use normy::static_fused_process::StaticFusedProcess;
use std::borrow::Cow;
use std::sync::Arc;

const SAMPLES: &[&str] = &[
    "",
    "hello",
    "  HELLO   World  ",
    "Ｈｅｌｌｏ　ＷＯＲＬＤ！",
    "İSTANBUL  ışık",
    "already clean",
    "\u{3000}全角　スペース\u{3000}",
];

#[test]
fn fused_normalize_matches_unfused() {
    let normy = Normy::builder()
        .lang(TUR)
        .add_stage(UnifyWidth)
        .add_stage(normalize_whitespace_full())
        .add_stage(LowerCase)
        .build();
    assert!(normy.uses_fusion());
    for &s in SAMPLES {
        let fused = normy.normalize(s).unwrap();
        let plain = normy.normalize_no_fusion(s).unwrap();
        assert_eq!(fused, plain, "input {s:?}");
    }
    assert_eq!(normy.normalize("  HELLO   World  ").unwrap(), "hello world");
}

#[test]
fn single_stage_does_not_fuse() {
    let normy = Normy::builder().lang(ENG).add_stage(LowerCase).build();
    assert!(!normy.uses_fusion());
    let normy = Normy::builder().lang(ENG).add_stage(StripHtml).add_stage(LowerCase).build();
    assert!(!normy.uses_fusion());
}

#[test]
fn untouched_text_is_borrowed_on_both_paths() {
    let normy = Normy::builder()
        .lang(ENG)
        .add_stage(UnifyWidth)
        .add_stage(normalize_whitespace_full())
        .add_stage(LowerCase)
        .build();
    let input = "already clean";
    assert!(matches!(normy.normalize(input).unwrap(), Cow::Borrowed(s) if s.as_ptr() == input.as_ptr()));
    assert!(matches!(normy.normalize_no_fusion(input).unwrap(), Cow::Borrowed(s) if s.as_ptr() == input.as_ptr()));
}

fn chain() -> ChainedProcess<LowerCase, ChainedProcess<normy::stage::normalize_whitespace::NormalizeWhitespace, ChainedProcess<UnifyWidth, EmptyProcess>>> {
    ChainedProcess {
        stage: LowerCase,
        previous: ChainedProcess {
            stage: normalize_whitespace_full(),
            previous: ChainedProcess { stage: UnifyWidth, previous: EmptyProcess },
        },
    }
}

#[test]
fn every_fusion_path_matches_process() {
    let ctx = Context::new(TUR);
    let c = chain();
    for &s in SAMPLES {
        let plain = c.process(Cow::Borrowed(s), &ctx).unwrap();
        let fused = BuildIter::process_fused(&c, Cow::Borrowed(s), &ctx).unwrap();
        let stagewise = FusedProcess::process_fused(&c, s, &ctx).unwrap();
        let island = c.process_static(s, &ctx).unwrap();
        assert_eq!(plain, fused, "build-iter path, input {s:?}");
        assert_eq!(plain, stagewise, "stage-wise path, input {s:?}");
        assert_eq!(plain, island, "island path, input {s:?}");
    }
    assert_eq!(c.fusable_chain_len(), 3);
}

#[test]
fn island_counts_a_stage_after_a_running_one() {
    let ctx = Context::new(ENG);
    let c = chain();
    let needs = c.collect_island_needs("ＡＢＣ", &ctx, 3).unwrap();
    assert_eq!(needs, vec![true, true, true]);
    let needs = c.collect_island_needs("abc", &ctx, 3).unwrap();
    assert_eq!(needs, vec![false, false, false]);
    let needs = c.collect_island_needs("ABC", &ctx, 3).unwrap();
    assert_eq!(needs, vec![false, false, true]);
}

#[test]
fn pipeline_applies_every_stage() {
    let stages: Vec<Arc<dyn Stage>> = vec![Arc::new(UnifyWidth), Arc::new(LowerCase), Arc::new(Trim)];
    let p = Pipeline::new(stages);
    let ctx = Context::new(ENG);
    assert_eq!(p.process(Cow::Borrowed("　ＨＥＬＬＯ　"), &ctx).unwrap(), "hello");
}

#[test]
fn presets_run_their_chains() {
    let ctx = Context::new(ENG);
    assert_eq!(ascii_fast().run(Cow::Borrowed("  a   b  "), &ctx).unwrap(), "a b");
    assert_eq!(minimum().run(Cow::Borrowed("a\u{7}  b"), &ctx).unwrap(), "a b");
    assert_eq!(machine_translation().run(Cow::Borrowed("“ﬁne”\u{200B}  …"), &ctx).unwrap(), "\"fine\" ...");
    assert_eq!(search().run(Cow::Borrowed("<b>CAFÉ</b>"), &ctx).unwrap(), "café");
}

#[test]
fn profile_builder_keeps_name_and_stages() {
    let ctx = Context::new(ENG);
    let p = Profile::builder("mine").add_stage(LowerCase).add_stage(Trim).build();
    assert_eq!(p.run(Cow::Borrowed("  ABC "), &ctx).unwrap(), "abc");
    let input = "abc";
    assert!(matches!(p.run(Cow::Borrowed(input), &ctx).unwrap(), Cow::Borrowed(_)));
}

#[test]
fn error_messages() {
    let e = StageError::Failed("trim", "bad".to_string());
    assert_eq!(e.message(), "Normalization failed at stage `trim`: bad");
    let e = StageError::Validation("utf8_validate", "invalid utf-8 sequence".to_string());
    assert_eq!(e.message(), "Normalization validation failed at stage `utf8_validate`: invalid utf-8 sequence");
    let n: NormyError = StageError::Failed("x", "y".to_string()).into();
    assert_eq!(n.message(), "Normalization failed at stage `x`: y");
    let p = ProfileError::Failed("search", "boom".to_string());
    assert_eq!(p.message(), "Normalization failed at profile `search`: boom");
}

#[test]
fn idempotent_stages_on_samples() {
    let ctx = Context::new(JPN);
    for &s in SAMPLES {
        let once = Trim.apply(Cow::Borrowed(s), &ctx).unwrap().into_owned();
        let twice = Trim.apply(Cow::Borrowed(&once), &ctx).unwrap().into_owned();
        assert_eq!(once, twice);
        let once = StripControlChars.apply(Cow::Borrowed(s), &ctx).unwrap().into_owned();
        let twice = StripControlChars.apply(Cow::Borrowed(&once), &ctx).unwrap().into_owned();
        assert_eq!(once, twice);
        let once = NormalizePunctuation.apply(Cow::Borrowed(s), &ctx).unwrap().into_owned();
        let twice = NormalizePunctuation.apply(Cow::Borrowed(&once), &ctx).unwrap().into_owned();
        assert_eq!(once, twice);
        let ws = normalize_whitespace_full();
        let once = ws.apply(Cow::Borrowed(s), &ctx).unwrap().into_owned();
        let twice = ws.apply(Cow::Borrowed(&once), &ctx).unwrap().into_owned();
        assert_eq!(once, twice);
        let once = segment_cjk_unigram(s);
        assert_eq!(segment_cjk_unigram(&once), once);
        let once = segment_allocating(s, JPN);
        assert_eq!(segment_allocating(&once, JPN), once);
    }
    assert_eq!(segment_cjk_unigram("漢字漢字"), "漢 字 漢 字");
}

#[test]
fn whitespace_normalization_settles() {
    let ctx = Context::new(ENG);
    let ws = normalize_whitespace_full();
    let once = ws.apply(Cow::Borrowed("  a \t\n b\u{3000}c  "), &ctx).unwrap().into_owned();
    assert_eq!(once, "a b c");
    let twice = ws.apply(Cow::Borrowed(&once), &ctx).unwrap().into_owned();
    assert_eq!(twice, once);
    let ideographic = ws.replace_whitespace_with('\u{3000}');
    let once = ideographic.apply(Cow::Borrowed("x\u{3000}\u{3000}y z"), &ctx).unwrap().into_owned();
    assert_eq!(once, "x\u{3000}y z");
    let twice = ideographic.apply(Cow::Borrowed(&once), &ctx).unwrap().into_owned();
    assert_eq!(twice, once);
}

#[test]
fn lowercase_keeps_length() {
    let ctx = Context::new(TUR);
    let input = "İIıiẞßABC";
    let out = LowerCase.apply(Cow::Borrowed(input), &ctx).unwrap();
    assert_eq!(out.chars().count(), input.chars().count());
    assert_eq!(out, "iııißßabc");
}

#[test]
fn utf8_validation_passes_text_through() {
    let ctx = Context::new(ENG);
    let input = "héllo wörld";
    assert!(matches!(Utf8Validate.apply(Cow::Borrowed(input), &ctx).unwrap(), Cow::Borrowed(s) if s.as_ptr() == input.as_ptr()));
    assert!(matches!(validation::Utf8Validate.apply(Cow::Borrowed(input), &ctx).unwrap(), Cow::Borrowed(_)));
    assert!(validation::validate_utf8(input).is_ok());
    assert_eq!(Utf8Validate.name(), "simd_utf8_validate");
    assert_eq!(validation::Utf8Validate.name(), "utf8_validate");
}

#[test]
fn locale_behaviour_of_languages() {
    assert_eq!(TUR.lowercase_char('I'), 'ı');
    assert_eq!(TUR.id(), TUR);
    assert!(DEU.needs_case_fold('ß'));
    assert_eq!(DEU.count_foldable_bytes("Straße"), (1, 0));
    assert_eq!(ENG.count_foldable_bytes("Straße"), (0, 0));
    assert_eq!(DEU.count_foldable_chars("Straße"), 2);
    assert_eq!(NLD.fold_char('Ĳ'), None);
    assert_eq!(ENG.fold_char('A'), Some('a'));
    assert!(JPN.needs_boundary_between('a', '世'));
    assert!(!JPN.needs_boundary_between('は', '世'));
    assert!(ZHO.needs_unigram_cjk());
    assert!(JPN.needs_word_segmentation());
    assert!(ENG.needs_trim(" x"));
    assert!(!ENG.needs_trim("x"));
    assert!(normy::lang::data::ARA.contains_diacritics("مَرْحَبًا"));
    assert_eq!(normy::lang::data::ARA.count_diacritics("مَرْ"), 2);
}

#[test]
fn normalization_forms_change_text() {
    let ctx = Context::new(ENG);
    assert_eq!(NFC.apply(Cow::Borrowed("e\u{301}"), &ctx).unwrap(), "é");
    assert_eq!(NFKC.apply(Cow::Borrowed("ﬁ"), &ctx).unwrap(), "fi");
    assert!(NFC.needs_apply("e\u{301}", &ctx).unwrap());
    assert!(!NFC.needs_apply("é", &ctx).unwrap());
}

#[test]
fn trim_only_trims_unicode_whitespace() {
    let ctx = Context::new(ENG);
    let stage = trim_whitespace_unicode();
    assert_eq!(stage.apply(Cow::Borrowed("\u{3000} a  b \u{00A0}"), &ctx).unwrap(), "a  b");
}

#[test]
fn diacritic_removal_settles() {
    let samples = ["Élève à côté", "Čeština žluťoučký", "Zażółć gęślą jaźń", "Ação São Paulo", "niño año", "Tiếng Việt", "مُحَمَّد"];
    for lang in [FRA, CES, POL, POR, SPA, VIE, ARA] {
        let ctx = Context::new(lang);
        for s in samples {
            let once = RemoveDiacritics.apply(Cow::Borrowed(s), &ctx).unwrap().into_owned();
            let twice = RemoveDiacritics.apply(Cow::Borrowed(&once), &ctx).unwrap().into_owned();
            assert_eq!(once, twice, "{lang:?} on {s}");
        }
    }
}

#[test]
fn transliteration_settles() {
    let samples = ["Straße Größe Übel", "ŒUVRE Århus Ærø Þór", "Москва щука", "l·l Œil", ""];
    for lang in [DEU, DAN, NOR, SWE, ISL, FRA, CAT, RUS] {
        let ctx = Context::new(lang);
        for s in samples {
            let once = Transliterate.apply(Cow::Borrowed(s), &ctx).unwrap().into_owned();
            let twice = Transliterate.apply(Cow::Borrowed(&once), &ctx).unwrap().into_owned();
            assert_eq!(once, twice, "{lang:?} on {s}");
        }
    }
    let fra = Context::new(FRA);
    assert_eq!(Transliterate.apply(Cow::Borrowed("ŒUVRE"), &fra).unwrap(), "oeUVRE");
}

#[test]
fn word_segmentation_settles() {
    let samples = [
        "Hello世界World",
        "東京タワーabc",
        "한국어text",
        "สวัสดีhello",
        "नमस्ते दुनिया",
        "a\u{200D}b 世\u{200C}界",
        "",
    ];
    for lang in [ZHO, JPN, KOR, THA, HIN, ENG] {
        let ctx = Context::new(lang);
        for s in samples {
            let once = SegmentWords.apply(Cow::Borrowed(s), &ctx).unwrap().into_owned();
            let twice = SegmentWords.apply(Cow::Borrowed(&once), &ctx).unwrap().into_owned();
            assert_eq!(once, twice, "{lang:?} on {s:?}");
        }
    }
}

#[test]
fn island_processing_hands_back_untouched_text() {
    let ctx = Context::new(ENG);
    let c = chain();
    let out = c.process_static("already clean", &ctx).unwrap();
    assert!(matches!(out, Cow::Borrowed("already clean")));
    assert_eq!(c.process_static("  ＡＢ  C ", &ctx).unwrap(), "ab c");
}
