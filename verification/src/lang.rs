//! Language metadata: case maps, folds, transliterations, diacritics and
//! segmentation rules, together with the per-character queries the stages use.
pub mod data;
pub mod behaviour;

use vstd::prelude::*;
use crate::text::{
    spec_lowercase_first, lowercase_first, char_to_lowercase, spec_lowercase_full, spec_len_utf8,
    len_utf8, str_chars, str_eq, spec_ascii_upper, ascii_uppercase,
};
use crate::lang::data::{spec_lang_of_code, spec_lang_entry, lang_of_code, lang_entry};

verus! {

/// A supported language. Each has an upper-case ISO-639-3 code and an
/// English name; see `data` for the table behind each one.
#[derive(Debug, Clone, Copy, PartialEq, Eq, Structural, Hash)]
pub enum Lang {
    /// Turkish
    Tur,
    /// German
    Deu,
    /// Dutch
    Nld,
    /// Danish
    Dan,
    /// Norwegian
    Nor,
    /// Swedish
    Swe,
    /// Icelandic
    Isl,
    /// Arabic
    Ara,
    /// Hebrew
    Heb,
    /// Vietnamese
    Vie,
    /// French
    Fra,
    /// Czech
    Ces,
    /// Slovak
    Slk,
    /// Polish
    Pol,
    /// Catalan
    Cat,
    /// Spanish
    Spa,
    /// Portuguese
    Por,
    /// Italian
    Ita,
    /// Croatian
    Hrv,
    /// Serbian
    Srp,
    /// Lithuanian
    Lit,
    /// Greek
    Ell,
    /// Hindi
    Hin,
    /// Bengali
    Ben,
    /// Tamil
    Tam,
    /// Russian
    Rus,
    /// Japanese
    Jpn,
    /// Chinese (Simplified)
    Zho,
    /// Korean
    Kor,
    /// Thai
    Tha,
    /// Lao
    Lao,
    /// Myanmar
    Mya,
    /// Khmer
    Khm,
    /// English
    Eng,
}

/// A language-specific one-to-one lowercase mapping.
#[derive(Clone, Copy, Debug)]
pub struct CaseMap {
    pub from: char,
    pub to: char,
}

/// A language-specific mapping of one character to a string.
#[derive(Clone, Copy, Debug)]
pub struct FoldMap {
    pub from: char,
    pub to: &'static str,
}

/// A mapping of a precomposed letter to its base letter.
#[derive(Clone, Copy, Debug)]
pub struct PreComposedToBaseMap {
    pub from: char,
    pub to: char,
}

/// A two-character sequence folded as a unit.
#[derive(Clone, Copy, Debug)]
pub struct PeekPair {
    pub a: char,
    pub b: char,
    pub to: &'static str,
}

#[derive(Debug, Clone, Copy, PartialEq, Eq, Structural)]
pub enum SegmentRule {
    WesternToScript,
    ScriptToWestern,
    CJKIdeographUnigram,
}

/// The abstract content of a `LangEntry`.
#[verifier::ext_equal]
pub struct LangEntryView {
    pub has_case_map: bool,
    pub has_fold_map: bool,
    pub has_transliterate_map: bool,
    pub has_pre_composed_to_base_map: bool,
    pub has_spacing_diacritics: bool,
    pub has_peek_pairs: bool,
    pub has_segment_rules: bool,
    pub has_one_to_one_folds: bool,
    pub has_one_to_one_transliterate: bool,
    pub needs_segmentation: bool,
    pub requires_peek_ahead: bool,
    pub unigram_cjk: bool,
    pub code: &'static str,
    pub case_map: Seq<CaseMap>,
    pub fold_map: Seq<FoldMap>,
    pub pre_composed_to_base_map: Seq<PreComposedToBaseMap>,
    pub pre_composed_to_base_char_slice: Seq<char>,
    pub spacing_diacritics: Option<Seq<char>>,
    pub spacing_diacritics_slice: Option<Seq<char>>,
    pub transliterate_map: Seq<FoldMap>,
    pub transliterate_char_slice: Seq<char>,
    pub peek_pairs: Seq<PeekPair>,
    pub segment_rules: Seq<SegmentRule>,
}

/// All the rules of one language.
pub struct LangEntry {
    has_case_map: bool,
    has_fold_map: bool,
    has_transliterate_map: bool,
    has_pre_composed_to_base_map: bool,
    has_spacing_diacritics: bool,
    has_peek_pairs: bool,
    has_segment_rules: bool,
    has_one_to_one_folds: bool,
    has_one_to_one_transliterate: bool,
    needs_segmentation: bool,
    requires_peek_ahead: bool,
    unigram_cjk: bool,
    code: &'static str,
    case_map: Vec<CaseMap>,
    fold_map: Vec<FoldMap>,
    pre_composed_to_base_map: Vec<PreComposedToBaseMap>,
    pre_composed_to_base_char_slice: Vec<char>,
    spacing_diacritics: Option<Vec<char>>,
    spacing_diacritics_slice: Option<Vec<char>>,
    transliterate_map: Vec<FoldMap>,
    transliterate_char_slice: Vec<char>,
    peek_pairs: Vec<PeekPair>,
    segment_rules: Vec<SegmentRule>,
}

pub open spec fn opt_chars_view(o: Option<Vec<char>>) -> Option<Seq<char>> {
    match o {
        Some(v) => Some(v@),
        None => None,
    }
}

impl View for LangEntry {
    type V = LangEntryView;

    closed spec fn view(&self) -> LangEntryView {
        LangEntryView {
            has_case_map: self.has_case_map,
            has_fold_map: self.has_fold_map,
            has_transliterate_map: self.has_transliterate_map,
            has_pre_composed_to_base_map: self.has_pre_composed_to_base_map,
            has_spacing_diacritics: self.has_spacing_diacritics,
            has_peek_pairs: self.has_peek_pairs,
            has_segment_rules: self.has_segment_rules,
            has_one_to_one_folds: self.has_one_to_one_folds,
            has_one_to_one_transliterate: self.has_one_to_one_transliterate,
            needs_segmentation: self.needs_segmentation,
            requires_peek_ahead: self.requires_peek_ahead,
            unigram_cjk: self.unigram_cjk,
            code: self.code,
            case_map: self.case_map@,
            fold_map: self.fold_map@,
            pre_composed_to_base_map: self.pre_composed_to_base_map@,
            pre_composed_to_base_char_slice: self.pre_composed_to_base_char_slice@,
            spacing_diacritics: opt_chars_view(self.spacing_diacritics),
            spacing_diacritics_slice: opt_chars_view(self.spacing_diacritics_slice),
            transliterate_map: self.transliterate_map@,
            transliterate_char_slice: self.transliterate_char_slice@,
            peek_pairs: self.peek_pairs@,
            segment_rules: self.segment_rules@,
        }
    }
}

// ---------------------------------------------------------------------------
// Lookups (first matching entry)
// ---------------------------------------------------------------------------

pub open spec fn spec_find_case(m: Seq<CaseMap>, c: char) -> Option<CaseMap>
    decreases m.len(),
{
    if m.len() == 0 {
        None
    } else if m[0].from == c {
        Some(m[0])
    } else {
        spec_find_case(m.drop_first(), c)
    }
}

pub open spec fn spec_find_fold(m: Seq<FoldMap>, c: char) -> Option<FoldMap>
    decreases m.len(),
{
    if m.len() == 0 {
        None
    } else if m[0].from == c {
        Some(m[0])
    } else {
        spec_find_fold(m.drop_first(), c)
    }
}

pub open spec fn spec_find_base(m: Seq<PreComposedToBaseMap>, c: char) -> Option<
    PreComposedToBaseMap,
>
    decreases m.len(),
{
    if m.len() == 0 {
        None
    } else if m[0].from == c {
        Some(m[0])
    } else {
        spec_find_base(m.drop_first(), c)
    }
}

pub open spec fn spec_find_pair(m: Seq<PeekPair>, a: char, b: char) -> Option<PeekPair>
    decreases m.len(),
{
    if m.len() == 0 {
        None
    } else if m[0].a == a && m[0].b == b {
        Some(m[0])
    } else {
        spec_find_pair(m.drop_first(), a, b)
    }
}

/// The case-map lookup finds an entry exactly when one has the character as
/// its source, and what it finds has that source.
pub proof fn lemma_find_case_found(m: Seq<CaseMap>, c: char)
    ensures
        spec_find_case(m, c) is Some <==> exists|i: int| 0 <= i < m.len() && (#[trigger] m[i]).from == c,
        spec_find_case(m, c) matches Some(x) ==> x.from == c,
    decreases m.len(),
{
    if m.len() > 0 {
        lemma_find_case_found(m.drop_first(), c);
        if m[0].from != c {
            assert forall|i: int| 0 <= i < m.len() && (#[trigger] m[i]).from == c implies
                exists|k: int| 0 <= k < m.drop_first().len() && (#[trigger] m.drop_first()[k]).from == c by {
                assert(m.drop_first()[i - 1] == m[i]);
            }
            assert forall|k: int| 0 <= k < m.drop_first().len() && (#[trigger] m.drop_first()[k]).from == c implies
                exists|i: int| 0 <= i < m.len() && (#[trigger] m[i]).from == c by {
                assert(m[k + 1] == m.drop_first()[k]);
            }
        }
    }
}

/// The fold-map lookup finds an entry exactly when one has the character as
/// its source; what it finds has that source and is an entry of the map.
pub proof fn lemma_find_fold_found(m: Seq<FoldMap>, c: char)
    ensures
        spec_find_fold(m, c) is Some <==> exists|i: int| 0 <= i < m.len() && (#[trigger] m[i]).from == c,
        spec_find_fold(m, c) matches Some(x) ==> x.from == c && m.contains(x),
    decreases m.len(),
{
    if m.len() > 0 {
        lemma_find_fold_found(m.drop_first(), c);
        if m[0].from != c {
            assert forall|i: int| 0 <= i < m.len() && (#[trigger] m[i]).from == c implies
                exists|k: int| 0 <= k < m.drop_first().len() && (#[trigger] m.drop_first()[k]).from == c by {
                assert(m.drop_first()[i - 1] == m[i]);
            }
            assert forall|k: int| 0 <= k < m.drop_first().len() && (#[trigger] m.drop_first()[k]).from == c implies
                exists|i: int| 0 <= i < m.len() && (#[trigger] m[i]).from == c by {
                assert(m[k + 1] == m.drop_first()[k]);
            }
            if let Some(x) = spec_find_fold(m, c) {
                let k = choose|k: int| 0 <= k < m.drop_first().len() && m.drop_first()[k] == x;
                assert(m[k + 1] == x);
            }
        } else {
            assert(m[0] == m[0]);
        }
    }
}

/// The base-map lookup finds an entry exactly when one has the character as
/// its source; what it finds has that source and is an entry of the map.
pub proof fn lemma_find_base_found(m: Seq<PreComposedToBaseMap>, c: char)
    ensures
        spec_find_base(m, c) is Some <==> exists|i: int| 0 <= i < m.len() && (#[trigger] m[i]).from == c,
        spec_find_base(m, c) matches Some(x) ==> x.from == c && m.contains(x),
    decreases m.len(),
{
    if m.len() > 0 {
        lemma_find_base_found(m.drop_first(), c);
        if m[0].from != c {
            assert forall|i: int| 0 <= i < m.len() && (#[trigger] m[i]).from == c implies
                exists|k: int| 0 <= k < m.drop_first().len() && (#[trigger] m.drop_first()[k]).from == c by {
                assert(m.drop_first()[i - 1] == m[i]);
            }
            assert forall|k: int| 0 <= k < m.drop_first().len() && (#[trigger] m.drop_first()[k]).from == c implies
                exists|i: int| 0 <= i < m.len() && (#[trigger] m[i]).from == c by {
                assert(m[k + 1] == m.drop_first()[k]);
            }
            if let Some(x) = spec_find_base(m, c) {
                let k = choose|k: int| 0 <= k < m.drop_first().len() && m.drop_first()[k] == x;
                assert(m[k + 1] == x);
            }
        } else {
            assert(m[0] == m[0]);
        }
    }
}

fn find_case_in(m: &Vec<CaseMap>, c: char) -> (r: Option<CaseMap>)
    ensures
        r == spec_find_case(m@, c),
{
    let n = m.len();
    assert(m@.subrange(0, n as int) =~= m@);
    for i in 0..n
        invariant
            n == m@.len(),
            spec_find_case(m@, c) == spec_find_case(m@.subrange(i as int, n as int), c),
    {
        assert(m@.subrange(i as int, n as int).drop_first() =~= m@.subrange(i + 1, n as int));
        if m[i].from == c {
            return Some(m[i]);
        }
    }
    None
}

fn find_fold_in(m: &Vec<FoldMap>, c: char) -> (r: Option<FoldMap>)
    ensures
        r == spec_find_fold(m@, c),
{
    let n = m.len();
    assert(m@.subrange(0, n as int) =~= m@);
    for i in 0..n
        invariant
            n == m@.len(),
            spec_find_fold(m@, c) == spec_find_fold(m@.subrange(i as int, n as int), c),
    {
        assert(m@.subrange(i as int, n as int).drop_first() =~= m@.subrange(i + 1, n as int));
        if m[i].from == c {
            return Some(m[i]);
        }
    }
    None
}

fn find_base_in(m: &Vec<PreComposedToBaseMap>, c: char) -> (r: Option<PreComposedToBaseMap>)
    ensures
        r == spec_find_base(m@, c),
{
    let n = m.len();
    assert(m@.subrange(0, n as int) =~= m@);
    for i in 0..n
        invariant
            n == m@.len(),
            spec_find_base(m@, c) == spec_find_base(m@.subrange(i as int, n as int), c),
    {
        assert(m@.subrange(i as int, n as int).drop_first() =~= m@.subrange(i + 1, n as int));
        if m[i].from == c {
            return Some(m[i]);
        }
    }
    None
}

fn find_pair_in(m: &Vec<PeekPair>, a: char, b: char) -> (r: Option<PeekPair>)
    ensures
        r == spec_find_pair(m@, a, b),
{
    let n = m.len();
    assert(m@.subrange(0, n as int) =~= m@);
    for i in 0..n
        invariant
            n == m@.len(),
            spec_find_pair(m@, a, b) == spec_find_pair(m@.subrange(i as int, n as int), a, b),
    {
        assert(m@.subrange(i as int, n as int).drop_first() =~= m@.subrange(i + 1, n as int));
        if m[i].a == a && m[i].b == b {
            return Some(m[i]);
        }
    }
    None
}

fn copy_vec<T: Copy>(v: &Vec<T>) -> (r: Vec<T>)
    ensures
        r@ == v@,
{
    let mut r: Vec<T> = Vec::new();
    let n = v.len();
    for i in 0..n
        invariant
            n == v@.len(),
            r@ == v@.take(i as int),
    {
        r.push(v[i]);
        assert(v@.take(i + 1) =~= v@.take(i as int).push(v@[i as int]));
    }
    assert(v@.take(n as int) =~= v@);
    r
}

fn copy_opt_chars(o: &Option<Vec<char>>) -> (r: Option<Vec<char>>)
    ensures
        opt_chars_view(r) == opt_chars_view(*o),
{
    match o {
        Some(v) => Some(copy_vec(v)),
        None => None,
    }
}

impl LangEntry {
    /// A copy of the entry.
    pub fn duplicate(&self) -> (r: LangEntry)
        ensures
            r@ == self@,
    {
        LangEntry {
            has_case_map: self.has_case_map,
            has_fold_map: self.has_fold_map,
            has_transliterate_map: self.has_transliterate_map,
            has_pre_composed_to_base_map: self.has_pre_composed_to_base_map,
            has_spacing_diacritics: self.has_spacing_diacritics,
            has_peek_pairs: self.has_peek_pairs,
            has_segment_rules: self.has_segment_rules,
            has_one_to_one_folds: self.has_one_to_one_folds,
            has_one_to_one_transliterate: self.has_one_to_one_transliterate,
            needs_segmentation: self.needs_segmentation,
            requires_peek_ahead: self.requires_peek_ahead,
            unigram_cjk: self.unigram_cjk,
            code: self.code,
            case_map: copy_vec(&self.case_map),
            fold_map: copy_vec(&self.fold_map),
            pre_composed_to_base_map: copy_vec(&self.pre_composed_to_base_map),
            pre_composed_to_base_char_slice: copy_vec(&self.pre_composed_to_base_char_slice),
            spacing_diacritics: copy_opt_chars(&self.spacing_diacritics),
            spacing_diacritics_slice: copy_opt_chars(&self.spacing_diacritics_slice),
            transliterate_map: copy_vec(&self.transliterate_map),
            transliterate_char_slice: copy_vec(&self.transliterate_char_slice),
            peek_pairs: copy_vec(&self.peek_pairs),
            segment_rules: copy_vec(&self.segment_rules),
        }
    }
}

fn copy_chars(v: &Vec<char>) -> (r: Vec<char>)
    ensures
        r@ == v@,
{
    let mut r: Vec<char> = Vec::new();
    let n = v.len();
    for i in 0..n
        invariant
            n == v@.len(),
            r@ == v@.take(i as int),
    {
        r.push(v[i]);
        assert(v@.take(i + 1) =~= v@.take(i as int).push(v@[i as int]));
    }
    assert(v@.take(n as int) =~= v@);
    r
}

fn chars_contain(v: &Vec<char>, c: char) -> (r: bool)
    ensures
        r == v@.contains(c),
{
    let n = v.len();
    for i in 0..n
        invariant
            n == v@.len(),
            forall|j: int| 0 <= j < i ==> v@[j] != c,
    {
        if v[i] == c {
            assert(v@[i as int] == c);
            return true;
        }
    }
    false
}

fn rules_contain(v: &Vec<SegmentRule>, r0: SegmentRule) -> (r: bool)
    ensures
        r == v@.contains(r0),
{
    let n = v.len();
    for i in 0..n
        invariant
            n == v@.len(),
            forall|j: int| 0 <= j < i ==> v@[j] != r0,
    {
        if v[i] == r0 {
            assert(v@[i as int] == r0);
            return true;
        }
    }
    false
}

/// Whether every mapping produces exactly one character.
pub open spec fn spec_all_one_char(m: Seq<FoldMap>) -> bool {
    forall|i: int| 0 <= i < m.len() ==> (#[trigger] m[i]).to@.len() == 1
}

fn all_one_char(m: &Vec<FoldMap>) -> (r: bool)
    ensures
        r == spec_all_one_char(m@),
{
    let n = m.len();
    for i in 0..n
        invariant
            n == m@.len(),
            forall|j: int| 0 <= j < i ==> (#[trigger] m@[j]).to@.len() == 1,
    {
        if m[i].to.unicode_len() != 1 {
            return false;
        }
    }
    true
}

// ---------------------------------------------------------------------------
// Semantic specifications
// ---------------------------------------------------------------------------

impl LangEntryView {
    /// Precomputed flags agree with the tables they summarize.
    pub open spec fn wf(self) -> bool {
        &&& self.has_case_map == (self.case_map.len() > 0)
        &&& self.has_fold_map == (self.fold_map.len() > 0)
        &&& self.has_transliterate_map == (self.transliterate_map.len() > 0)
        &&& self.has_pre_composed_to_base_map == (self.pre_composed_to_base_map.len() > 0)
        &&& self.has_peek_pairs == (self.peek_pairs.len() > 0)
        &&& self.has_segment_rules == (self.segment_rules.len() > 0)
        &&& self.has_spacing_diacritics == (self.spacing_diacritics matches Some(d) && d.len() > 0)
        &&& self.has_one_to_one_folds ==> spec_all_one_char(self.fold_map)
        &&& self.has_one_to_one_transliterate ==> spec_all_one_char(self.transliterate_map)
    }

    pub open spec fn is_spacing_diacritic(self, c: char) -> bool {
        self.spacing_diacritics_slice matches Some(s) && s.contains(c)
    }

    /// A fold, a case mapping, or a full lowercase mapping other than the
    /// character itself.
    pub open spec fn needs_case_fold(self, c: char) -> bool {
        ||| spec_find_fold(self.fold_map, c) is Some
        ||| spec_find_case(self.case_map, c) is Some
        ||| spec_lowercase_full(c) != seq![c]
    }

    pub open spec fn needs_lowercase(self, c: char) -> bool {
        spec_find_case(self.case_map, c) is Some || spec_lowercase_first(c) != c
    }

    /// The lowercase form of one character: the language's case map first,
    /// then the first character of the Unicode lowercase mapping.
    pub open spec fn lowercase_char(self, c: char) -> char {
        match spec_find_case(self.case_map, c) {
            Some(m) => m.to,
            None => spec_lowercase_first(c),
        }
    }

    pub open spec fn apply_case_fold(self, c: char) -> Option<char> {
        match spec_find_fold(self.fold_map, c) {
            Some(m) => if self.has_one_to_one_folds {
                Some(if m.to@.len() > 0 { m.to@[0] } else { c })
            } else {
                None
            },
            None => match spec_find_case(self.case_map, c) {
                Some(m) => Some(m.to),
                None => Some(spec_lowercase_first(c)),
            },
        }
    }

    /// The full case fold of one character: fold map, then case map, then
    /// the complete Unicode lowercase mapping.
    pub open spec fn fold_chars(self, c: char) -> Seq<char> {
        match spec_find_fold(self.fold_map, c) {
            Some(m) => m.to@,
            None => match spec_find_case(self.case_map, c) {
                Some(m) => seq![m.to],
                None => spec_lowercase_full(c),
            },
        }
    }

    pub open spec fn transliterate_chars(self, c: char) -> Seq<char> {
        match spec_find_fold(self.transliterate_map, c) {
            Some(m) => m.to@,
            None => seq![c],
        }
    }

    /// The context-sensitive fold of a character followed by `next`.
    pub open spec fn peek_fold(self, current: char, next: Option<char>) -> Option<Seq<char>> {
        if !self.requires_peek_ahead {
            None
        } else {
            match next {
                None => None,
                Some(n) => match spec_find_pair(self.peek_pairs, current, n) {
                    Some(p) => Some(p.to@),
                    None => match (spec_find_fold(self.fold_map, current), spec_find_fold(self.fold_map, n)) {
                        (Some(cm), Some(nm)) => if cm.to@ == nm.to@ && cm.to@.len() > 1 {
                            Some(cm.to@)
                        } else {
                            None
                        },
                        _ => None,
                    },
                },
            }
        }
    }

    pub open spec fn needs_removal(self, text: Seq<char>) -> bool {
        exists|i: int|
            0 <= i < text.len() && ((self.has_pre_composed_to_base_map
                && self.pre_composed_to_base_char_slice.contains(#[trigger] text[i]))
                || (self.spacing_diacritics matches Some(d) && d.contains(text[i])))
    }
}

/// `(number of characters found in the map, extra UTF-8 bytes their replacements need)`.
pub open spec fn spec_capacity_hint(m: Seq<FoldMap>, text: Seq<char>) -> (nat, nat)
    decreases text.len(),
{
    if text.len() == 0 {
        (0, 0)
    } else {
        let (n, extra) = spec_capacity_hint(m, text.drop_last());
        let c = text.last();
        match spec_find_fold(m, c) {
            Some(f) => {
                let to_len = f.to.len() as nat;
                let from_len = spec_len_utf8(c);
                (n + 1, if to_len > from_len { extra + (to_len - from_len) as nat } else { extra })
            },
            None => (n, extra),
        }
    }
}

proof fn lemma_capacity_hint_count(m: Seq<FoldMap>, text: Seq<char>)
    ensures
        spec_capacity_hint(m, text).0 <= text.len(),
    decreases text.len(),
{
    if text.len() > 0 {
        lemma_capacity_hint_count(m, text.drop_last());
    }
}

// ---------------------------------------------------------------------------
// Executable API
// ---------------------------------------------------------------------------

impl LangEntry {
    /// Builds an entry from its tables; the summary flags are given by the caller.
    pub(crate) fn from_parts(
        flags: [bool; 12],
        code: &'static str,
        case_map: Vec<CaseMap>,
        fold_map: Vec<FoldMap>,
        pre_composed_to_base_map: Vec<PreComposedToBaseMap>,
        pre_composed_to_base_char_slice: Vec<char>,
        spacing_diacritics: Option<Vec<char>>,
        transliterate_map: Vec<FoldMap>,
        transliterate_char_slice: Vec<char>,
        peek_pairs: Vec<PeekPair>,
        segment_rules: Vec<SegmentRule>,
    ) -> (e: LangEntry)
        ensures
            e@.has_case_map == flags[0],
            e@.has_fold_map == flags[1],
            e@.has_transliterate_map == flags[2],
            e@.has_pre_composed_to_base_map == flags[3],
            e@.has_spacing_diacritics == flags[4],
            e@.has_peek_pairs == flags[5],
            e@.has_segment_rules == flags[6],
            e@.has_one_to_one_folds == flags[7],
            e@.has_one_to_one_transliterate == flags[8],
            e@.needs_segmentation == flags[9],
            e@.requires_peek_ahead == flags[10],
            e@.unigram_cjk == flags[11],
            e@.code == code,
            e@.case_map == case_map@,
            e@.fold_map == fold_map@,
            e@.pre_composed_to_base_map == pre_composed_to_base_map@,
            e@.pre_composed_to_base_char_slice == pre_composed_to_base_char_slice@,
            e@.spacing_diacritics == opt_chars_view(spacing_diacritics),
            e@.spacing_diacritics_slice == opt_chars_view(spacing_diacritics),
            e@.transliterate_map == transliterate_map@,
            e@.transliterate_char_slice == transliterate_char_slice@,
            e@.peek_pairs == peek_pairs@,
            e@.segment_rules == segment_rules@,
    {
        let slice = match &spacing_diacritics {
            Some(d) => Some(copy_chars(d)),
            None => None,
        };
        LangEntry {
            has_case_map: flags[0],
            has_fold_map: flags[1],
            has_transliterate_map: flags[2],
            has_pre_composed_to_base_map: flags[3],
            has_spacing_diacritics: flags[4],
            has_peek_pairs: flags[5],
            has_segment_rules: flags[6],
            has_one_to_one_folds: flags[7],
            has_one_to_one_transliterate: flags[8],
            needs_segmentation: flags[9],
            requires_peek_ahead: flags[10],
            unigram_cjk: flags[11],
            code,
            case_map,
            fold_map,
            pre_composed_to_base_map,
            pre_composed_to_base_char_slice,
            spacing_diacritics,
            spacing_diacritics_slice: slice,
            transliterate_map,
            transliterate_char_slice,
            peek_pairs,
            segment_rules,
        }
    }

    // ----- Boolean queries -----

    pub fn has_case_map(&self) -> (r: bool)
        ensures
            r == self@.has_case_map,
    {
        self.has_case_map
    }

    pub fn has_fold_map(&self) -> (r: bool)
        ensures
            r == self@.has_fold_map,
    {
        self.has_fold_map
    }

    pub fn has_transliterate_map(&self) -> (r: bool)
        ensures
            r == self@.has_transliterate_map,
    {
        self.has_transliterate_map
    }

    pub fn has_pre_composed_to_base_map(&self) -> (r: bool)
        ensures
            r == self@.has_pre_composed_to_base_map,
    {
        self.has_pre_composed_to_base_map
    }

    pub fn has_spacing_diacritics(&self) -> (r: bool)
        ensures
            r == self@.has_spacing_diacritics,
    {
        self.has_spacing_diacritics
    }

    pub fn has_peek_pairs(&self) -> (r: bool)
        ensures
            r == self@.has_peek_pairs,
    {
        self.has_peek_pairs
    }

    pub fn has_segment_rules(&self) -> (r: bool)
        ensures
            r == self@.has_segment_rules,
    {
        self.has_segment_rules
    }

    pub fn has_one_to_one_folds(&self) -> (r: bool)
        ensures
            r == self@.has_one_to_one_folds,
    {
        self.has_one_to_one_folds
    }

    pub fn has_one_to_one_transliterate(&self) -> (r: bool)
        ensures
            r == self@.has_one_to_one_transliterate,
    {
        self.has_one_to_one_transliterate
    }

    pub fn has_pre_composed_to_base_map_or_spacing_diacritics(&self) -> (r: bool)
        ensures
            r == (self@.has_pre_composed_to_base_map || self@.has_spacing_diacritics),
    {
        self.has_pre_composed_to_base_map || self.has_spacing_diacritics
    }

    pub fn needs_segmentation(&self) -> (r: bool)
        ensures
            r == self@.needs_segmentation,
    {
        self.needs_segmentation
    }

    pub fn needs_unigram_cjk(&self) -> (r: bool)
        ensures
            r == self@.unigram_cjk,
    {
        self.unigram_cjk
    }

    pub fn requires_peek_ahead(&self) -> (r: bool)
        ensures
            r == self@.requires_peek_ahead,
    {
        self.requires_peek_ahead
    }

    // ----- Character checks -----

    pub fn is_spacing_diacritic(&self, c: char) -> (r: bool)
        ensures
            r == self@.is_spacing_diacritic(c),
    {
        match &self.spacing_diacritics_slice {
            Some(s) => chars_contain(s, c),
            None => false,
        }
    }

    pub fn is_transliterable(&self, c: char) -> (r: bool)
        ensures
            r == self@.transliterate_char_slice.contains(c),
    {
        chars_contain(&self.transliterate_char_slice, c)
    }

    pub fn is_pre_composed_to_base_char(&self, c: char) -> (r: bool)
        ensures
            r == self@.pre_composed_to_base_char_slice.contains(c),
    {
        chars_contain(&self.pre_composed_to_base_char_slice, c)
    }

    // ----- Text analysis -----

    pub fn needs_case_fold(&self, c: char) -> (r: bool)
        ensures
            r == self@.needs_case_fold(c),
    {
        if find_fold_in(&self.fold_map, c).is_some() || find_case_in(&self.case_map, c).is_some() {
            return true;
        }
        let lower = char_to_lowercase(c);
        assert(lower@ == spec_lowercase_full(c));
        if lower.len() == 1 && lower[0] == c {
            assert(lower@ =~= seq![c]);
            false
        } else {
            true
        }
    }

    pub fn needs_lowercase(&self, c: char) -> (r: bool)
        ensures
            r == self@.needs_lowercase(c),
    {
        if find_case_in(&self.case_map, c).is_some() {
            return true;
        }
        lowercase_first(c) != c
    }

    pub fn needs_pre_composed_to_base_map_or_spacing_diacritics_removal(&self, text: &str) -> (r:
        bool)
        ensures
            r == self@.needs_removal(text@),
    {
        let chars = str_chars(text);
        let n = chars.len();
        for i in 0..n
            invariant
                n == chars@.len(),
                chars@ == text@,
                forall|j: int|
                    0 <= j < i ==> !((self@.has_pre_composed_to_base_map
                        && self@.pre_composed_to_base_char_slice.contains(#[trigger] text@[j]))
                        || (self@.spacing_diacritics matches Some(d) && d.contains(text@[j]))),
        {
            let c = chars[i];
            if self.has_pre_composed_to_base_map && chars_contain(
                &self.pre_composed_to_base_char_slice,
                c,
            ) {
                assert(self@.pre_composed_to_base_char_slice.contains(text@[i as int]));
                return true;
            }
            match &self.spacing_diacritics {
                Some(d) => {
                    if chars_contain(d, c) {
                        assert(d@.contains(text@[i as int]));
                        return true;
                    }
                },
                None => {},
            }
        }
        false
    }

    // ----- Data accessors -----

    pub fn code(&self) -> (r: &'static str)
        ensures
            r == self@.code,
    {
        self.code
    }

    pub fn case_map(&self) -> (r: &[CaseMap])
        ensures
            r@ == self@.case_map,
    {
        self.case_map.as_slice()
    }

    pub fn fold_map(&self) -> (r: &[FoldMap])
        ensures
            r@ == self@.fold_map,
    {
        self.fold_map.as_slice()
    }

    pub fn transliterate_map(&self) -> (r: &[FoldMap])
        ensures
            r@ == self@.transliterate_map,
    {
        self.transliterate_map.as_slice()
    }

    pub fn pre_composed_to_base_map(&self) -> (r: &[PreComposedToBaseMap])
        ensures
            r@ == self@.pre_composed_to_base_map,
    {
        self.pre_composed_to_base_map.as_slice()
    }

    pub fn spacing_diacritics(&self) -> (r: Option<&[char]>)
        ensures
            match r {
                Some(s) => self@.spacing_diacritics == Some(s@),
                None => self@.spacing_diacritics is None,
            },
    {
        match &self.spacing_diacritics {
            Some(d) => Some(d.as_slice()),
            None => None,
        }
    }

    pub fn peek_pairs(&self) -> (r: &[PeekPair])
        ensures
            r@ == self@.peek_pairs,
    {
        self.peek_pairs.as_slice()
    }

    pub fn segment_rules(&self) -> (r: &[SegmentRule])
        ensures
            r@ == self@.segment_rules,
    {
        self.segment_rules.as_slice()
    }

    pub fn transliterate_char_slice(&self) -> (r: &[char])
        ensures
            r@ == self@.transliterate_char_slice,
    {
        self.transliterate_char_slice.as_slice()
    }

    pub fn pre_composed_to_base_char_slice(&self) -> (r: &[char])
        ensures
            r@ == self@.pre_composed_to_base_char_slice,
    {
        self.pre_composed_to_base_char_slice.as_slice()
    }

    pub fn spacing_diacritics_slice(&self) -> (r: Option<&[char]>)
        ensures
            match r {
                Some(s) => self@.spacing_diacritics_slice == Some(s@),
                None => self@.spacing_diacritics_slice is None,
            },
    {
        match &self.spacing_diacritics_slice {
            Some(d) => Some(d.as_slice()),
            None => None,
        }
    }

    pub fn segment_rules_contain(&self, rule: SegmentRule) -> (r: bool)
        ensures
            r == self@.segment_rules.contains(rule),
    {
        rules_contain(&self.segment_rules, rule)
    }

    /// The first case map entry for `c`.
    pub fn find_case_map(&self, c: char) -> (r: Option<CaseMap>)
        ensures
            r == spec_find_case(self@.case_map, c),
    {
        find_case_in(&self.case_map, c)
    }

    /// The first fold map entry for `c`.
    pub fn find_fold_map(&self, c: char) -> (r: Option<FoldMap>)
        ensures
            r == spec_find_fold(self@.fold_map, c),
    {
        find_fold_in(&self.fold_map, c)
    }

    pub fn find_transliterate_map(&self, c: char) -> (r: Option<FoldMap>)
        ensures
            r == spec_find_fold(self@.transliterate_map, c),
    {
        find_fold_in(&self.transliterate_map, c)
    }

    pub fn find_pre_composed_to_base_map(&self, c: char) -> (r: Option<PreComposedToBaseMap>)
        ensures
            r == spec_find_base(self@.pre_composed_to_base_map, c),
    {
        find_base_in(&self.pre_composed_to_base_map, c)
    }

    // ----- Transformations -----

    /// One-to-one case fold of a character; `None` when the language folds it
    /// to several characters.
    pub fn apply_case_fold(&self, c: char) -> (r: Option<char>)
        ensures
            r == self@.apply_case_fold(c),
    {
        if let Some(m) = find_fold_in(&self.fold_map, c) {
            if self.has_one_to_one_folds {
                let to = str_chars(m.to);
                if to.len() > 0 {
                    Some(to[0])
                } else {
                    Some(c)
                }
            } else {
                None
            }
        } else if let Some(m) = find_case_in(&self.case_map, c) {
            Some(m.to)
        } else {
            Some(lowercase_first(c))
        }
    }

    pub fn apply_lowercase(&self, c: char) -> (r: char)
        ensures
            r == self@.lowercase_char(c),
    {
        if let Some(m) = find_case_in(&self.case_map, c) {
            m.to
        } else {
            lowercase_first(c)
        }
    }

    pub fn apply_pre_composed_to_base_map(&self, c: char) -> (r: Option<char>)
        ensures
            r == (match spec_find_base(self@.pre_composed_to_base_map, c) {
                Some(m) => Some(m.to),
                None => None,
            }),
    {
        match find_base_in(&self.pre_composed_to_base_map, c) {
            Some(m) => Some(m.to),
            None => None,
        }
    }

    /// The fold of `current` when followed by `next`, if the pair is folded
    /// as a unit.
    pub fn get_peek_fold(&self, current: char, next: Option<char>) -> (r: Option<&'static str>)
        ensures
            match r {
                Some(s) => self@.peek_fold(current, next) == Some(s@),
                None => self@.peek_fold(current, next) is None,
            },
    {
        if !self.requires_peek_ahead {
            return None;
        }
        let next_char = match next {
            Some(n) => n,
            None => return None,
        };
        if let Some(p) = find_pair_in(&self.peek_pairs, current, next_char) {
            return Some(p.to);
        }
        let cur = match find_fold_in(&self.fold_map, current) {
            Some(m) => m,
            None => return None,
        };
        let nxt = match find_fold_in(&self.fold_map, next_char) {
            Some(m) => m,
            None => return None,
        };
        if str_eq(cur.to, nxt.to) && cur.to.unicode_len() > 1 {
            Some(cur.to)
        } else {
            None
        }
    }

    fn hint_capacity(m: &Vec<FoldMap>, text: &str) -> (r: (usize, usize))
        requires
            spec_capacity_hint(m@, text@).1 <= usize::MAX,
        ensures
            r.0 == spec_capacity_hint(m@, text@).0,
            r.1 == spec_capacity_hint(m@, text@).1,
    {
        let chars = str_chars(text);
        let n = chars.len();
        let mut count: usize = 0;
        let mut extra: usize = 0;
        for i in 0..n
            invariant
                n == chars@.len(),
                chars@ == text@,
                spec_capacity_hint(m@, text@).1 <= usize::MAX,
                count == spec_capacity_hint(m@, chars@.take(i as int)).0,
                extra == spec_capacity_hint(m@, chars@.take(i as int)).1,
        {
            let c = chars[i];
            proof {
                assert(chars@.take(i + 1).drop_last() =~= chars@.take(i as int));
                lemma_capacity_hint_count(m@, chars@.take(i as int));
                lemma_capacity_hint_prefix(m@, chars@, i as int + 1);
            }
            if let Some(f) = find_fold_in(m, c) {
                count = count + 1;
                let to_len = f.to.len();
                let from_len = len_utf8(c);
                if to_len > from_len {
                    extra = extra + (to_len - from_len);
                }
            }
        }
        assert(chars@.take(n as int) =~= chars@);
        (count, extra)
    }

    /// Characters of `text` found in the fold map, and the extra bytes their
    /// folds need.
    pub fn hint_capacity_fold(&self, text: &str) -> (r: (usize, usize))
        requires
            spec_capacity_hint(self@.fold_map, text@).1 <= usize::MAX,
        ensures
            r == (if self@.has_fold_map {
                (spec_capacity_hint(self@.fold_map, text@).0 as usize, spec_capacity_hint(
                    self@.fold_map,
                    text@,
                ).1 as usize)
            } else {
                (0usize, 0usize)
            }),
    {
        if !self.has_fold_map {
            return (0, 0);
        }
        Self::hint_capacity(&self.fold_map, text)
    }

    pub fn hint_capacity_transliterate(&self, text: &str) -> (r: (usize, usize))
        requires
            spec_capacity_hint(self@.transliterate_map, text@).1 <= usize::MAX,
        ensures
            r == (if self@.has_transliterate_map {
                (spec_capacity_hint(self@.transliterate_map, text@).0 as usize, spec_capacity_hint(
                    self@.transliterate_map,
                    text@,
                ).1 as usize)
            } else {
                (0usize, 0usize)
            }),
    {
        if !self.has_transliterate_map {
            return (0, 0);
        }
        Self::hint_capacity(&self.transliterate_map, text)
    }

    // ----- Setters -----

    pub fn set_case_map(&mut self, case_map: Vec<CaseMap>)
        ensures
            final(self)@ == (LangEntryView {
                case_map: case_map@,
                has_case_map: case_map@.len() > 0,
                ..old(self)@
            }),
    {
        self.has_case_map = case_map.len() > 0;
        self.case_map = case_map;
    }

    pub fn set_fold_map(&mut self, fold_map: Vec<FoldMap>)
        ensures
            final(self)@ == (LangEntryView {
                fold_map: fold_map@,
                has_fold_map: fold_map@.len() > 0,
                has_one_to_one_folds: spec_all_one_char(fold_map@),
                ..old(self)@
            }),
    {
        self.has_fold_map = fold_map.len() > 0;
        self.has_one_to_one_folds = all_one_char(&fold_map);
        self.fold_map = fold_map;
    }

    pub fn set_transliterate_map(&mut self, transliterate_map: Vec<FoldMap>)
        ensures
            final(self)@ == (LangEntryView {
                transliterate_map: transliterate_map@,
                has_transliterate_map: transliterate_map@.len() > 0,
                has_one_to_one_transliterate: spec_all_one_char(transliterate_map@),
                ..old(self)@
            }),
    {
        self.has_transliterate_map = transliterate_map.len() > 0;
        self.has_one_to_one_transliterate = all_one_char(&transliterate_map);
        self.transliterate_map = transliterate_map;
    }

    pub fn set_transliterate_char_slice(&mut self, slice: Vec<char>)
        ensures
            final(self)@ == (LangEntryView { transliterate_char_slice: slice@, ..old(self)@ }),
    {
        self.transliterate_char_slice = slice;
    }

    pub fn set_pre_composed_to_base_map(&mut self, map: Vec<PreComposedToBaseMap>)
        ensures
            final(self)@ == (LangEntryView {
                pre_composed_to_base_map: map@,
                has_pre_composed_to_base_map: map@.len() > 0,
                ..old(self)@
            }),
    {
        self.has_pre_composed_to_base_map = map.len() > 0;
        self.pre_composed_to_base_map = map;
    }

    pub fn set_pre_composed_to_base_char_slice(&mut self, slice: Vec<char>)
        ensures
            final(self)@ == (LangEntryView {
                pre_composed_to_base_char_slice: slice@,
                ..old(self)@
            }),
    {
        self.pre_composed_to_base_char_slice = slice;
    }

    pub fn set_spacing_diacritics(&mut self, diacritics: Option<Vec<char>>)
        ensures
            final(self)@ == (LangEntryView {
                spacing_diacritics: opt_chars_view(diacritics),
                spacing_diacritics_slice: opt_chars_view(diacritics),
                has_spacing_diacritics: diacritics matches Some(d) && d@.len() > 0,
                ..old(self)@
            }),
    {
        let slice = match &diacritics {
            Some(d) => Some(copy_chars(d)),
            None => None,
        };
        self.has_spacing_diacritics = match &diacritics {
            Some(d) => d.len() > 0,
            None => false,
        };
        self.spacing_diacritics = diacritics;
        self.spacing_diacritics_slice = slice;
    }

    pub fn set_needs_segmentation(&mut self, needs: bool)
        ensures
            final(self)@ == (LangEntryView { needs_segmentation: needs, ..old(self)@ }),
    {
        self.needs_segmentation = needs;
    }

    pub fn set_requires_peek_ahead(&mut self, required: bool)
        ensures
            final(self)@ == (LangEntryView { requires_peek_ahead: required, ..old(self)@ }),
    {
        self.requires_peek_ahead = required;
    }

    /// Sets the peek pairs; having any pair turns peek-ahead on.
    pub fn set_peek_pairs(&mut self, pairs: Vec<PeekPair>)
        ensures
            final(self)@ == (LangEntryView {
                peek_pairs: pairs@,
                has_peek_pairs: pairs@.len() > 0,
                requires_peek_ahead: pairs@.len() > 0 || old(self)@.requires_peek_ahead,
                ..old(self)@
            }),
    {
        self.has_peek_pairs = pairs.len() > 0;
        if self.has_peek_pairs {
            self.requires_peek_ahead = true;
        }
        self.peek_pairs = pairs;
    }

    /// Sets the segmentation rules; the unigram flag follows whether the
    /// CJK unigram rule is among them.
    pub fn set_segment_rules(&mut self, rules: Vec<SegmentRule>)
        ensures
            final(self)@ == (LangEntryView {
                segment_rules: rules@,
                has_segment_rules: rules@.len() > 0,
                unigram_cjk: rules@.contains(SegmentRule::CJKIdeographUnigram),
                ..old(self)@
            }),
    {
        self.has_segment_rules = rules.len() > 0;
        self.unigram_cjk = rules_contain(&rules, SegmentRule::CJKIdeographUnigram);
        self.segment_rules = rules;
    }

    pub fn set_unigram_cjk(&mut self, unigram: bool)
        ensures
            final(self)@ == (LangEntryView { unigram_cjk: unigram, ..old(self)@ }),
    {
        self.unigram_cjk = unigram;
    }
}

proof fn lemma_capacity_hint_prefix(m: Seq<FoldMap>, text: Seq<char>, k: int)
    requires
        0 <= k <= text.len(),
    ensures
        spec_capacity_hint(m, text.take(k)).1 <= spec_capacity_hint(m, text).1,
    decreases text.len() - k,
{
    if k < text.len() {
        lemma_capacity_hint_prefix(m, text, k + 1);
        assert(text.take(k + 1).drop_last() =~= text.take(k));
    } else {
        assert(text.take(k) =~= text);
    }
}

/// The entry of the language whose code matches `code`, compared
/// ASCII-case-insensitively.
pub fn get_lang_entry_by_code(code: &str) -> (r: Option<LangEntry>)
    ensures
        match spec_lang_of_code(code@.map_values(|c: char| spec_ascii_upper(c))) {
            Some(l) => r matches Some(e) && e@ == spec_lang_entry(l),
            None => r is None,
        },
{
    let upper = ascii_uppercase(code);
    match lang_of_code(upper.as_str()) {
        Some(l) => Some(lang_entry(l)),
        None => None,
    }
}

} // verus!
