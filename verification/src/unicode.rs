//! Unicode character classification used by the normalization stages.
//!
//! The classification deliberately covers the scripts that matter for
//! tokenization of real-world multilingual text; everything else falls into
//! `CharClass::Other`, which never introduces word breaks.
use vstd::prelude::*;

verus! {

// ---------------------------------------------------------------------------
// Format controls (Cf) and whitespace
// ---------------------------------------------------------------------------

/// The format control characters removed by `StripFormatControls`:
/// zero-width space/joiners, bidi marks, embeddings, overrides and isolates,
/// invisible operators, deprecated shaping controls and the BOM.
pub open spec fn spec_is_format_control(c: char) -> bool {
    let cp = c as u32;
    ||| 0x200B <= cp <= 0x200F
    ||| 0x202A <= cp <= 0x202E
    ||| 0x2060 <= cp <= 0x2064
    ||| 0x2066 <= cp <= 0x206F
    ||| cp == 0xFEFF
}

/// Non-ASCII whitespace that is mapped to the replacement character when
/// whitespace normalization runs in Unicode mode.
pub open spec fn spec_is_unicode_whitespace(c: char) -> bool {
    let cp = c as u32;
    ||| cp == 0x0085
    ||| cp == 0x00A0
    ||| cp == 0x1680
    ||| 0x2000 <= cp <= 0x200A
    ||| cp == 0x2028
    ||| cp == 0x2029
    ||| cp == 0x202F
    ||| cp == 0x205F
    ||| cp == 0x3000
}

/// The characters with the Unicode `White_Space` property.
pub open spec fn spec_is_whitespace(c: char) -> bool {
    let cp = c as u32;
    ||| 0x09 <= cp <= 0x0D
    ||| cp == 0x20
    ||| spec_is_unicode_whitespace(c)
}

/// ASCII whitespace in the sense of `char::is_ascii_whitespace`
/// (space, tab, line feed, form feed, carriage return; not vertical tab).
pub open spec fn spec_is_ascii_whitespace(c: char) -> bool {
    let cp = c as u32;
    cp == 0x20 || cp == 0x09 || cp == 0x0A || cp == 0x0C || cp == 0x0D
}

/// The byte-level whitespace table: ASCII whitespace plus vertical tab.
pub open spec fn spec_is_ascii_whitespace_byte(b: u8) -> bool {
    b == 0x20 || b == 0x09 || b == 0x0A || b == 0x0D || b == 0x0B || b == 0x0C
}

pub open spec fn spec_is_any_whitespace(c: char) -> bool {
    spec_is_whitespace(c) || spec_is_unicode_whitespace(c)
}

pub open spec fn spec_is_control(c: char) -> bool {
    let cp = c as u32;
    cp <= 0x1F || (0x7F <= cp <= 0x9F)
}

pub open spec fn spec_is_fullwidth(c: char) -> bool {
    let cp = c as u32;
    (0xFF01 <= cp <= 0xFF5E) || cp == 0x3000
}

/// The half-width counterpart: `U+FF01..=U+FF5E` shift down by `0xFEE0`,
/// the ideographic space becomes an ASCII space, everything else is kept.
pub open spec fn spec_fullwidth_to_halfwidth(c: char) -> char {
    let cp = c as u32;
    if 0xFF01 <= cp <= 0xFF5E {
        ((cp - 0xFEE0) as u8) as char
    } else if cp == 0x3000 {
        ' '
    } else {
        c
    }
}

/// Typographic punctuation and its ASCII replacement.
pub open spec fn spec_normalize_punctuation_char(c: char) -> char {
    if c == '\u{201C}' || c == '\u{201D}' || c == '\u{201E}' || c == '\u{00AB}' || c == '\u{00BB}'
        || c == '\u{2032}' || c == '\u{2033}' {
        '"'
    } else if c == '\u{2018}' || c == '\u{2019}' || c == '\u{201A}' {
        '\''
    } else if c == '\u{2013}' || c == '\u{2014}' || c == '\u{2500}' || c == '\u{2015}' {
        '-'
    } else if c == '\u{2026}' || c == '\u{22EF}' || c == '\u{2024}' || c == '\u{2027}' {
        '.'
    } else if c == '\u{2022}' || c == '\u{00B7}' || c == '\u{2219}' {
        '*'
    } else if c == '\u{2039}' {
        '<'
    } else if c == '\u{203A}' {
        '>'
    } else {
        c
    }
}

// ---------------------------------------------------------------------------
// Script blocks
// ---------------------------------------------------------------------------

pub open spec fn spec_is_hangul(c: char) -> bool {
    let cp = c as u32;
    ||| 0xAC00 <= cp <= 0xD7AF
    ||| 0x1100 <= cp <= 0x11FF
    ||| 0x3130 <= cp <= 0x318F
    ||| 0xA960 <= cp <= 0xA97F
    ||| 0xD7B0 <= cp <= 0xD7FF
}

pub open spec fn spec_is_hiragana(c: char) -> bool {
    0x3040 <= c as u32 <= 0x309F
}

pub open spec fn spec_is_katakana(c: char) -> bool {
    let cp = c as u32;
    (0x30A0 <= cp <= 0x30FF) || (0x31F0 <= cp <= 0x31FF)
}

pub open spec fn spec_is_kana_supplement(c: char) -> bool {
    0x1B000 <= c as u32 <= 0x1B16F
}

pub open spec fn spec_is_cjk_unified_ideograph(c: char) -> bool {
    let cp = c as u32;
    ||| 0x4E00 <= cp <= 0x9FFF
    ||| 0x3400 <= cp <= 0x4DBF
    ||| 0x20000 <= cp <= 0x2A6DF
    ||| 0x2A700 <= cp <= 0x2B73F
    ||| 0x2B740 <= cp <= 0x2B81F
    ||| 0x2B820 <= cp <= 0x2CEAF
    ||| 0x2CEB0 <= cp <= 0x2EBEF
    ||| 0x30000 <= cp <= 0x3134F
    ||| 0x31350 <= cp <= 0x323AF
    ||| 0xF900 <= cp <= 0xFAFF
}

pub open spec fn spec_is_kangxi_radical(c: char) -> bool {
    0x2F00 <= c as u32 <= 0x2FDF
}

pub open spec fn spec_is_cjk_han_or_kana(c: char) -> bool {
    ||| spec_is_cjk_unified_ideograph(c)
    ||| spec_is_hiragana(c)
    ||| spec_is_katakana(c)
    ||| spec_is_kana_supplement(c)
    ||| spec_is_kangxi_radical(c)
}

pub open spec fn spec_is_se_asian_script(c: char) -> bool {
    let cp = c as u32;
    ||| 0x0E00 <= cp <= 0x0EFF
    ||| 0x1000 <= cp <= 0x109F
    ||| 0xAA60 <= cp <= 0xAA7F
    ||| 0xA9E0 <= cp <= 0xA9FF
    ||| 0x1780 <= cp <= 0x17FF
    ||| 0x19E0 <= cp <= 0x19FF
    ||| 0x1A00 <= cp <= 0x1AAF
}

pub open spec fn spec_is_indic_script(c: char) -> bool {
    let cp = c as u32;
    ||| 0x0900 <= cp <= 0x0DFF
    ||| 0xA8E0 <= cp <= 0xA8FF
    ||| 0x11FC0 <= cp <= 0x11FFF
}

pub open spec fn spec_is_virama(c: char) -> bool {
    let cp = c as u32;
    ||| cp == 0x094D
    ||| cp == 0x09CD
    ||| cp == 0x0A4D
    ||| cp == 0x0ACD
    ||| cp == 0x0B4D
    ||| cp == 0x0BCD
    ||| cp == 0x0C4D
    ||| cp == 0x0CCD
    ||| cp == 0x0D4D
    ||| cp == 0x0DCA
    ||| cp == 0x103A
    ||| cp == 0x17D2
    ||| cp == 0x1BAA
    ||| cp == 0x1B44
}

/// Devanagari consonants that form mandatory conjuncts after a virama:
/// ra, ya, va, ha.
pub open spec fn spec_should_prevent_indic_break(c: char) -> bool {
    let cp = c as u32;
    cp == 0x0930 || cp == 0x092F || cp == 0x0935 || cp == 0x0939
}

pub open spec fn spec_is_modern_alphabetic_script(cp: u32) -> bool {
    ||| 0x0370 <= cp <= 0x077F
    ||| 0x0870 <= cp <= 0x08FF
    ||| 0x10A0 <= cp <= 0x10FF
    ||| 0x13A0 <= cp <= 0x13FF
}

pub open spec fn spec_is_extended_latin(c: char) -> bool {
    0x00C0 <= c as u32 <= 0x02AF
}

pub open spec fn spec_is_ascii_alphanumeric(c: char) -> bool {
    ('0' <= c && c <= '9') || ('A' <= c && c <= 'Z') || ('a' <= c && c <= 'z')
}

pub open spec fn spec_is_ascii_punctuation(c: char) -> bool {
    let cp = c as u32;
    (0x21 <= cp <= 0x2F) || (0x3A <= cp <= 0x40) || (0x5B <= cp <= 0x60) || (0x7B <= cp <= 0x7E)
}

/// The script family of a character, as far as segmentation cares.
#[derive(Clone, Copy, PartialEq, Eq, Structural, Debug)]
pub enum CharClass {
    Other,
    Whitespace,
    Western,
    Cjk,
    Hangul,
    SEAsian,
    NonCJKScript,
    Indic,
}

pub open spec fn spec_classify(c: char) -> CharClass {
    let cp = c as u32;
    if cp < 0x80 {
        if spec_is_ascii_whitespace(c) {
            CharClass::Whitespace
        } else if spec_is_ascii_alphanumeric(c) || spec_is_ascii_punctuation(c) {
            CharClass::Western
        } else {
            CharClass::Other
        }
    } else if spec_is_any_whitespace(c) {
        CharClass::Whitespace
    } else if spec_is_cjk_han_or_kana(c) {
        CharClass::Cjk
    } else if spec_is_hangul(c) {
        CharClass::Hangul
    } else if spec_is_se_asian_script(c) {
        CharClass::SEAsian
    } else if spec_is_indic_script(c) {
        CharClass::Indic
    } else if spec_is_extended_latin(c) {
        CharClass::Western
    } else if spec_is_modern_alphabetic_script(cp) {
        CharClass::NonCJKScript
    } else {
        CharClass::Other
    }
}

// ---------------------------------------------------------------------------
// Executable predicates
// ---------------------------------------------------------------------------

/// Whether any character of `text` is a format control.
pub fn contains_format_controls(text: &str) -> (r: bool)
    ensures
        r == exists|i: int| 0 <= i < text@.len() && spec_is_format_control(#[trigger] text@[i]),
{
    for c in it: text.chars()
        invariant
            it.seq() == text@,
            forall|j: int| 0 <= j < it.index() ==> !spec_is_format_control(#[trigger] text@[j]),
    {
        if is_format_control(c) {
            assert(text@[it.index() as int] == c);
            return true;
        }
    }
    false
}

pub fn is_unicode_whitespace(c: char) -> (r: bool)
    ensures
        r == spec_is_unicode_whitespace(c),
{
    let cp = c as u32;
    cp == 0x0085 || cp == 0x00A0 || cp == 0x1680 || (0x2000 <= cp && cp <= 0x200A) || cp
        == 0x2028 || cp == 0x2029 || cp == 0x202F || cp == 0x205F || cp == 0x3000
}

/// Whether `c` has the Unicode `White_Space` property.
pub fn is_whitespace(c: char) -> (r: bool)
    ensures
        r == spec_is_whitespace(c),
{
    let cp = c as u32;
    (0x09 <= cp && cp <= 0x0D) || cp == 0x20 || is_unicode_whitespace(c)
}

pub fn is_ascii_whitespace(c: char) -> (r: bool)
    ensures
        r == spec_is_ascii_whitespace(c),
{
    let cp = c as u32;
    cp == 0x20 || cp == 0x09 || cp == 0x0A || cp == 0x0C || cp == 0x0D
}

pub fn is_any_whitespace(c: char) -> (r: bool)
    ensures
        r == spec_is_any_whitespace(c),
{
    is_whitespace(c) || is_unicode_whitespace(c)
}

pub fn is_ascii_whitespace_fast(b: u8) -> (r: bool)
    ensures
        r == spec_is_ascii_whitespace_byte(b),
{
    b == 0x20 || b == 0x09 || b == 0x0A || b == 0x0D || b == 0x0B || b == 0x0C
}

/// Lead bytes of the UTF-8 encodings of the non-ASCII whitespace characters.
pub fn could_be_unicode_ws_start(b: u8) -> (r: bool)
    ensures
        r == (b == 0xC2 || b == 0xE1 || b == 0xE2 || b == 0xE3),
{
    b == 0xC2 || b == 0xE1 || b == 0xE2 || b == 0xE3
}

pub fn is_format_control(c: char) -> (r: bool)
    ensures
        r == spec_is_format_control(c),
{
    let cp = c as u32;
    (0x200B <= cp && cp <= 0x200F) || (0x202A <= cp && cp <= 0x202E) || (0x2060 <= cp && cp
        <= 0x2064) || (0x2066 <= cp && cp <= 0x206F) || cp == 0xFEFF
}

pub fn is_control(c: char) -> (r: bool)
    ensures
        r == spec_is_control(c),
{
    let cp = c as u32;
    cp <= 0x1F || (0x7F <= cp && cp <= 0x9F)
}

pub fn is_fullwidth(c: char) -> (r: bool)
    ensures
        r == spec_is_fullwidth(c),
{
    let cp = c as u32;
    (0xFF01 <= cp && cp <= 0xFF5E) || cp == 0x3000
}

pub fn fullwidth_to_halfwidth(c: char) -> (r: char)
    ensures
        r == spec_fullwidth_to_halfwidth(c),
{
    let cp = c as u32;
    if 0xFF01 <= cp && cp <= 0xFF5E {
        let b: u8 = (cp - 0xFEE0) as u8;
        b as char
    } else if cp == 0x3000 {
        ' '
    } else {
        c
    }
}

pub fn normalize_punctuation_char(c: char) -> (r: char)
    ensures
        r == spec_normalize_punctuation_char(c),
{
    if c == '\u{201C}' || c == '\u{201D}' || c == '\u{201E}' || c == '\u{00AB}' || c == '\u{00BB}'
        || c == '\u{2032}' || c == '\u{2033}' {
        '"'
    } else if c == '\u{2018}' || c == '\u{2019}' || c == '\u{201A}' {
        '\''
    } else if c == '\u{2013}' || c == '\u{2014}' || c == '\u{2500}' || c == '\u{2015}' {
        '-'
    } else if c == '\u{2026}' || c == '\u{22EF}' || c == '\u{2024}' || c == '\u{2027}' {
        '.'
    } else if c == '\u{2022}' || c == '\u{00B7}' || c == '\u{2219}' {
        '*'
    } else if c == '\u{2039}' {
        '<'
    } else if c == '\u{203A}' {
        '>'
    } else {
        c
    }
}

pub fn is_hangul(c: char) -> (r: bool)
    ensures
        r == spec_is_hangul(c),
{
    let cp = c as u32;
    (0xAC00 <= cp && cp <= 0xD7AF) || (0x1100 <= cp && cp <= 0x11FF) || (0x3130 <= cp && cp
        <= 0x318F) || (0xA960 <= cp && cp <= 0xA97F) || (0xD7B0 <= cp && cp <= 0xD7FF)
}

pub fn is_hiragana(c: char) -> (r: bool)
    ensures
        r == spec_is_hiragana(c),
{
    let cp = c as u32;
    0x3040 <= cp && cp <= 0x309F
}

pub fn is_katakana(c: char) -> (r: bool)
    ensures
        r == spec_is_katakana(c),
{
    let cp = c as u32;
    (0x30A0 <= cp && cp <= 0x30FF) || (0x31F0 <= cp && cp <= 0x31FF)
}

pub fn is_kana_supplement(c: char) -> (r: bool)
    ensures
        r == spec_is_kana_supplement(c),
{
    let cp = c as u32;
    0x1B000 <= cp && cp <= 0x1B16F
}

pub fn is_cjk_unified_ideograph(c: char) -> (r: bool)
    ensures
        r == spec_is_cjk_unified_ideograph(c),
{
    let cp = c as u32;
    (0x4E00 <= cp && cp <= 0x9FFF) || (0x3400 <= cp && cp <= 0x4DBF) || (0x20000 <= cp && cp
        <= 0x2A6DF) || (0x2A700 <= cp && cp <= 0x2B73F) || (0x2B740 <= cp && cp <= 0x2B81F) || (
    0x2B820 <= cp && cp <= 0x2CEAF) || (0x2CEB0 <= cp && cp <= 0x2EBEF) || (0x30000 <= cp && cp
        <= 0x3134F) || (0x31350 <= cp && cp <= 0x323AF) || (0xF900 <= cp && cp <= 0xFAFF)
}

pub fn is_kangxi_radical(c: char) -> (r: bool)
    ensures
        r == spec_is_kangxi_radical(c),
{
    let cp = c as u32;
    0x2F00 <= cp && cp <= 0x2FDF
}

pub fn is_cjk_han_or_kana(c: char) -> (r: bool)
    ensures
        r == spec_is_cjk_han_or_kana(c),
{
    is_cjk_unified_ideograph(c) || is_hiragana(c) || is_katakana(c) || is_kana_supplement(c)
        || is_kangxi_radical(c)
}

pub fn is_se_asian_script(c: char) -> (r: bool)
    ensures
        r == spec_is_se_asian_script(c),
{
    let cp = c as u32;
    (0x0E00 <= cp && cp <= 0x0EFF) || (0x1000 <= cp && cp <= 0x109F) || (0xAA60 <= cp && cp
        <= 0xAA7F) || (0xA9E0 <= cp && cp <= 0xA9FF) || (0x1780 <= cp && cp <= 0x17FF) || (0x19E0
        <= cp && cp <= 0x19FF) || (0x1A00 <= cp && cp <= 0x1AAF)
}

pub fn is_indic_script(c: char) -> (r: bool)
    ensures
        r == spec_is_indic_script(c),
{
    let cp = c as u32;
    (0x0900 <= cp && cp <= 0x0DFF) || (0xA8E0 <= cp && cp <= 0xA8FF) || (0x11FC0 <= cp && cp
        <= 0x11FFF)
}

pub fn is_virama(c: char) -> (r: bool)
    ensures
        r == spec_is_virama(c),
{
    let cp = c as u32;
    cp == 0x094D || cp == 0x09CD || cp == 0x0A4D || cp == 0x0ACD || cp == 0x0B4D || cp == 0x0BCD
        || cp == 0x0C4D || cp == 0x0CCD || cp == 0x0D4D || cp == 0x0DCA || cp == 0x103A || cp
        == 0x17D2 || cp == 0x1BAA || cp == 0x1B44
}

pub fn should_prevent_indic_break(c: char) -> (r: bool)
    ensures
        r == spec_should_prevent_indic_break(c),
{
    let cp = c as u32;
    cp == 0x0930 || cp == 0x092F || cp == 0x0935 || cp == 0x0939
}

fn is_modern_alphabetic_script(cp: u32) -> (r: bool)
    ensures
        r == spec_is_modern_alphabetic_script(cp),
{
    (0x0370 <= cp && cp <= 0x077F) || (0x0870 <= cp && cp <= 0x08FF) || (0x10A0 <= cp && cp
        <= 0x10FF) || (0x13A0 <= cp && cp <= 0x13FF)
}

/// The zero-width space used as an invisible word boundary.
pub fn zwsp() -> (r: char)
    ensures
        r == '\u{200B}',
{
    '\u{200B}'
}

pub fn is_extended_latin(c: char) -> (r: bool)
    ensures
        r == spec_is_extended_latin(c),
{
    let cp = c as u32;
    0x00C0 <= cp && cp <= 0x02AF
}

pub fn is_ascii_alphanumeric(c: char) -> (r: bool)
    ensures
        r == spec_is_ascii_alphanumeric(c),
{
    ('0' <= c && c <= '9') || ('A' <= c && c <= 'Z') || ('a' <= c && c <= 'z')
}

pub fn is_ascii_punctuation(c: char) -> (r: bool)
    ensures
        r == spec_is_ascii_punctuation(c),
{
    let cp = c as u32;
    (0x21 <= cp && cp <= 0x2F) || (0x3A <= cp && cp <= 0x40) || (0x5B <= cp && cp <= 0x60) || (
    0x7B <= cp && cp <= 0x7E)
}

pub fn classify(c: char) -> (r: CharClass)
    ensures
        r == spec_classify(c),
{
    let cp = c as u32;
    if cp < 0x80 {
        if is_ascii_whitespace(c) {
            return CharClass::Whitespace;
        }
        if is_ascii_alphanumeric(c) || is_ascii_punctuation(c) {
            return CharClass::Western;
        }
        return CharClass::Other;
    }
    if is_any_whitespace(c) {
        return CharClass::Whitespace;
    }
    if is_cjk_han_or_kana(c) {
        return CharClass::Cjk;
    }
    if is_hangul(c) {
        return CharClass::Hangul;
    }
    if is_se_asian_script(c) {
        return CharClass::SEAsian;
    }
    if is_indic_script(c) {
        return CharClass::Indic;
    }
    if is_extended_latin(c) {
        return CharClass::Western;
    }
    if is_modern_alphabetic_script(cp) {
        return CharClass::NonCJKScript;
    }
    CharClass::Other
}

} // verus!
