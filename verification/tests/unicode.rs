use normy::unicode::{classify, is_control, is_format_control, is_unicode_whitespace, CharClass};

#[test]
fn format_controls_are_correctly_detected() {
    for c in ['\u{200B}', '\u{200C}', '\u{200D}', '\u{FEFF}', '\u{2066}'] {
        assert!(is_format_control(c), "Missed format control U+{:04X}", c as u32);
    }
    assert!(!is_format_control('A'));
    assert!(!is_format_control(' '));
}

#[test]
fn unicode_whitespace_is_correctly_detected() {
    assert!(is_unicode_whitespace('\u{00A0}'));
    assert!(is_unicode_whitespace('\u{3000}'));
    assert!(!is_unicode_whitespace(' '));
}

#[test]
fn control_characters() {
    assert!(is_control('\0'));
    assert!(is_control('\u{001F}'));
    assert!(is_control('\u{007F}'));
    assert!(!is_control(' '));
}

#[test]
fn char_classification() {
    for c in ['h', '5', '!', 'é', 'Ā', 'ſ', 'Ə', 'ǃ'] {
        assert_eq!(classify(c), CharClass::Western, "Western failed U+{:04X}", c as u32);
    }
    for c in ['Я', 'α', 'מ', 'م', 'ა', 'Բ', 'ܐ'] {
        assert_eq!(classify(c), CharClass::NonCJKScript, "Modern script failed U+{:04X}", c as u32);
    }
    for c in ['𐍈', 'Ꝛ', 'ᚠ', '☭', '𐤀', '𒀀', '𐌰', 'አ', '\u{200B}'] {
        assert_eq!(classify(c), CharClass::Other, "Should be Other U+{:04X}", c as u32);
    }
    for c in [' ', '\t', '\u{00A0}', '\u{3000}', '\u{1680}'] {
        assert_eq!(classify(c), CharClass::Whitespace);
    }
}

fn assert_class(c: char, expected: CharClass) {
    assert_eq!(classify(c), expected, "U+{:04X} '{}' misclassified", c as u32, c);
}

#[test]
fn classify_is_exhaustive_and_correct() {
    assert_class('A', CharClass::Western);
    assert_class('5', CharClass::Western);
    assert_class('!', CharClass::Western);
    assert_class('À', CharClass::Western);
    assert_class('ÿ', CharClass::Western);
    assert_class('Ā', CharClass::Western);
    assert_class('ſ', CharClass::Western);
    assert_class('Ə', CharClass::Western);
    assert_class('ǃ', CharClass::Western);
    assert_class('𱁬', CharClass::Cjk);
    assert_class('𲁨', CharClass::Cjk);
    assert_class('豈', CharClass::Cjk);
    assert_class('㐀', CharClass::Cjk);
    assert_class('㐀', CharClass::Cjk);
    assert_class('世', CharClass::Cjk);
    assert_class('界', CharClass::Cjk);
    assert_class('অ', CharClass::Indic);
    assert_class('ਅ', CharClass::Indic);
    assert_class('અ', CharClass::Indic);
    assert_class('ଅ', CharClass::Indic);
    assert_class('అ', CharClass::Indic);
    assert_class('ಕ', CharClass::Indic);
    assert_class('മ', CharClass::Indic);
    assert_class('අ', CharClass::Indic);
    assert_class('ꩠ', CharClass::SEAsian);
    assert_class('᧠', CharClass::SEAsian);
    assert_class('𐐧', CharClass::Other);
    assert_class('𐐀', CharClass::Other);
    assert_class('Ꝛ', CharClass::Other);
    assert_class('★', CharClass::Other);
    assert_class('☭', CharClass::Other);
    assert_class('𐍈', CharClass::Other);
    assert_class('\u{200B}', CharClass::Other);
    assert_class('\u{2060}', CharClass::Other);
    assert_class('\u{FEFF}', CharClass::Other);
    assert_class('\u{1680}', CharClass::Whitespace);
    assert_class('\u{2028}', CharClass::Whitespace);
}
