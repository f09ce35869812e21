use normy::lang::data::all_langs;
use std::collections::{BTreeMap, BTreeSet};
use normy::lang::{get_lang_entry_by_code, LangEntry};

fn lang(code: &str) -> LangEntry {
    get_lang_entry_by_code(code).unwrap()
}

#[test]
fn turkish_case_folding() {
    let tur = lang("TUR");
    assert_eq!(tur.apply_case_fold('İ'), Some('i'));
    assert_eq!(tur.apply_case_fold('I'), Some('ı'));
    assert_eq!(tur.apply_lowercase('İ'), 'i');
    assert_eq!(tur.apply_lowercase('I'), 'ı');
    assert!(tur.has_one_to_one_folds());
    assert!(!tur.requires_peek_ahead());
    assert!(!tur.case_map().is_empty(), "Turkish has custom case_map");
}

#[test]
fn german_multi_char_folding() {
    let deu = lang("DEU");
    assert_eq!(deu.apply_lowercase('ẞ'), 'ß');
    assert_eq!(deu.apply_case_fold('ẞ'), None, "ẞ→ss is multi-char");
    assert_eq!(deu.apply_case_fold('ß'), None, "ß→ss is multi-char");
    assert!(!deu.has_one_to_one_folds());
    assert!(!deu.requires_peek_ahead());
}

#[test]
fn dutch_peek_ahead_ligatures() {
    let nld = lang("NLD");
    assert_eq!(nld.apply_case_fold('Ĳ'), None);
    assert_eq!(nld.apply_case_fold('ĳ'), None);
    assert!(!nld.has_one_to_one_folds());
}

#[test]
fn arabic_diacritics() {
    let ara = lang("ARA");
    assert!(ara.has_spacing_diacritics());
    assert!(ara.is_spacing_diacritic('\u{064E}'), "َ (fatha)");
    assert!(!ara.is_spacing_diacritic('ا'), "Base letter ا");
}

#[test]
fn english_basic_case_folding() {
    let eng = lang("ENG");
    assert_eq!(eng.apply_case_fold('A'), Some('a'));
    assert_eq!(eng.apply_case_fold('Z'), Some('z'));
    assert_eq!(eng.apply_lowercase('A'), 'a');
    assert!(eng.has_one_to_one_folds());
    assert!(!eng.requires_peek_ahead());
    assert!(eng.case_map().is_empty(), "English uses Unicode defaults");
}

#[test]
fn segmentation_languages() {
    let needs_seg = ["JPN", "ZHO", "KOR", "THA", "MYA", "KHM"];
    for code in needs_seg {
        assert!(lang(code).needs_segmentation(), "{} needs segmentation", code);
    }
    let no_seg = ["ENG", "TUR", "DEU", "FRA", "ARA"];
    for code in no_seg {
        assert!(!lang(code).needs_segmentation(), "{} doesn't need segmentation", code);
    }
}

#[test]
fn case_map_exclusivity() {
    assert!(!lang("TUR").case_map().is_empty());
    for code in ["ENG", "DEU", "FRA", "ARA", "NLD", "POL"] {
        assert!(lang(code).case_map().is_empty(), "{} should use Unicode case", code);
    }
}

#[test]
fn peek_ahead_requirements() {
    for code in ["ENG", "TUR", "DEU", "FRA", "ARA"] {
        assert!(!lang(code).requires_peek_ahead(), "{} shouldn't need peek-ahead", code);
    }
}

#[test]
fn all_languages_metadata_valid() {
    for lang_info in all_langs() {
        let entry = lang(lang_info.code());
        if entry.requires_peek_ahead() {
            assert!(
                !entry.peek_pairs().is_empty(),
                "{}: requires_peek_ahead but no peek_pairs",
                lang_info.code()
            );
        }
        if entry.has_one_to_one_folds() {
            for fold in entry.fold_map() {
                assert_eq!(
                    fold.to.chars().count(),
                    1,
                    "{}: {} → {} violates one_to_one",
                    lang_info.code(),
                    fold.from,
                    fold.to
                );
            }
        }
        if entry.has_spacing_diacritics() {
            assert!(
                entry.spacing_diacritics().is_some(),
                "{}: has_spacing_diacritics but field is None",
                lang_info.code()
            );
        }
    }
}

#[test]
fn fold_targets_already_lowercase() {
    let test_langs = ["TUR", "DEU", "NLD", "FRA", "POL", "CES"];
    for code in test_langs {
        for fold in lang(code).fold_map() {
            let target_lower: String = fold.to.chars().flat_map(|c| c.to_lowercase()).collect();
            assert_eq!(fold.to, target_lower, "{}: fold target '{}' not lowercase", code, fold.to);
        }
    }
}

#[test]
fn apply_case_fold_rejects_multi_char() {
    assert_eq!(lang("DEU").apply_case_fold('ß'), None, "ß→ss");
    assert_eq!(lang("DEU").apply_case_fold('ẞ'), None, "ẞ→ss");
    assert_eq!(lang("NLD").apply_case_fold('Ĳ'), None, "Ĳ→ij");
    assert_eq!(lang("TUR").apply_case_fold('İ'), Some('i'));
    assert_eq!(lang("DEU").apply_case_fold('A'), Some('a'));
}

#[test]
fn apply_lowercase_always_succeeds() {
    assert_eq!(lang("TUR").apply_lowercase('İ'), 'i');
    assert_eq!(lang("DEU").apply_lowercase('ẞ'), 'ß', "ẞ→ß, NOT →ss");
    assert_eq!(lang("ARA").apply_lowercase('ا'), 'ا', "Already lowercase");
    let text = "İIıiẞßABC";
    for c in text.chars() {
        let result = lang("TUR").apply_lowercase(c);
        assert_eq!(result.to_string().chars().count(), 1);
    }
}

#[test]
fn fold_vs_lowercase_difference() {
    assert_eq!(lang("DEU").apply_lowercase('ẞ'), 'ß');
    assert_eq!(lang("DEU").apply_case_fold('ẞ'), None);
    assert!(!lang("DEU").has_one_to_one_folds());
}

#[test]
fn get_lang_entry_by_code_case_insensitive() {
    assert!(get_lang_entry_by_code("TUR").is_some());
    assert!(get_lang_entry_by_code("tur").is_some());
    assert!(get_lang_entry_by_code("Tur").is_some());
    assert!(get_lang_entry_by_code("XXX").is_none());
}

#[test]
fn needs_case_fold_is_fast() {
    let text = "A".repeat(1000);
    let entry = lang("ENG");
    let start = std::time::Instant::now();
    let count = text.chars().filter(|&c| entry.needs_case_fold(c)).count();
    let elapsed = start.elapsed();
    assert_eq!(count, 1000);
    assert!(elapsed.as_millis() < 10, "Should be sub-millisecond");
}

#[test]
fn one_to_one_preserves_grapheme_count() {
    let cases = [("ABCabc", "ENG"), ("éÉèÈ", "FRA"), ("İIıi", "TUR")];
    for (text, code) in cases {
        let entry = lang(code);
        let folded: String = text.chars().filter_map(|c| entry.apply_case_fold(c)).collect();
        assert_eq!(
            text.chars().count(),
            folded.chars().count(),
            "{} grapheme count changed for {}",
            code,
            text
        );
    }
}

#[test]
fn empty_text_operations() {
    let entry = lang("ENG");
    assert_eq!(entry.hint_capacity_fold(""), (0, 0));
    assert_eq!(entry.hint_capacity_transliterate(""), (0, 0));
    assert!(!entry.needs_pre_composed_to_base_map_or_spacing_diacritics_removal(""));
}

#[test]
fn ascii_fast_paths() {
    let entry = lang("ENG");
    assert!(!entry.needs_case_fold('a'));
    assert!(!entry.needs_lowercase('a'));
    assert!(entry.needs_case_fold('A'));
    assert!(entry.needs_lowercase('A'));
}

fn print_stat(map: &BTreeMap<&str, usize>, name: &str) {
    let total = map.len();
    if total == 0 {
        println!("{:<28} 0 languages", name);
    } else {
        let mut items = map.iter().map(|(code, cnt)| format!("{code}({cnt})")).collect::<Vec<_>>();
        items.sort();
        println!(
            "{:<28} {} language{} → {}",
            name,
            total,
            if total == 1 { "" } else { "s" },
            items.join(" ")
        );
    }
}

fn print_set(set: &BTreeSet<&str>, name: &str) {
    let total = set.len();
    if total == 0 {
        println!("{:<28} 0 languages", name);
    } else {
        let mut codes = set.iter().copied().collect::<Vec<_>>();
        codes.sort();
        println!(
            "{:<28} {} language{} → {}",
            name,
            total,
            if total == 1 { "" } else { "s" },
            codes.join(" ")
        );
    }
}

#[test]
fn lang_statistics() {
    let mut casemap = BTreeMap::<&str, usize>::new();
    let mut fold = BTreeMap::<&str, usize>::new();
    let mut transliterate = BTreeMap::<&str, usize>::new();
    let mut precomposed = BTreeMap::<&str, usize>::new();
    let mut spacing_diacritics = BTreeMap::<&str, usize>::new();
    let mut peek_pairs = BTreeMap::<&str, usize>::new();
    let mut has_segment_rules = BTreeSet::<&str>::new();
    let mut needs_segmentation = BTreeSet::<&str>::new();
    let mut unigram_cjk = BTreeSet::<&str>::new();
    for lang in all_langs() {
        let e = get_lang_entry_by_code(lang.code()).unwrap();
        if e.has_case_map() {
            *casemap.entry(lang.code()).or_default() += e.case_map().len();
        }
        if e.has_fold_map() {
            *fold.entry(lang.code()).or_default() += e.fold_map().len();
        }
        if e.has_transliterate_map() {
            *transliterate.entry(lang.code()).or_default() += e.transliterate_map().len();
        }
        if e.has_pre_composed_to_base_map() {
            *precomposed.entry(lang.code()).or_default() += e.pre_composed_to_base_map().len();
        }
        if e.has_spacing_diacritics() {
            let cnt = e.spacing_diacritics_slice().unwrap_or(&[]).len();
            *spacing_diacritics.entry(lang.code()).or_default() += cnt;
        }
        if e.has_peek_pairs() {
            *peek_pairs.entry(lang.code()).or_default() += e.peek_pairs().len();
        }
        if e.has_segment_rules() {
            has_segment_rules.insert(lang.code());
        }
        if e.needs_segmentation() {
            needs_segmentation.insert(lang.code());
        }
        if e.needs_unigram_cjk() {
            unigram_cjk.insert(lang.code());
        }
    }
    println!("=== Normy Language Property Statistics ===\n");
    print_stat(&casemap, "casemap");
    print_stat(&fold, "fold");
    print_stat(&transliterate, "transliterate");
    print_stat(&precomposed, "precomposed_to_base");
    print_stat(&spacing_diacritics, "spacing_diacritics");
    print_set(&has_segment_rules, "segment_rules (any)");
    print_set(&unigram_cjk, "unigram_cjk");
    print_stat(&peek_pairs, "peek_pairs");
    assert!(!needs_segmentation.is_empty());
}
