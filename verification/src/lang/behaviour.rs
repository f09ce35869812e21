//! Per-language behaviour, asked of the language itself: its rules come
//! from its entry in the built-in table.
use vstd::prelude::*;
use vstd::slice::slice_to_vec;
use crate::lang::{CaseMap, FoldMap, Lang, LangEntry, LangEntryView, SegmentRule, spec_find_fold};
use crate::lang::data::{lang_entry, spec_lang_entry};
use crate::stage::fold_case::{fold_char, spec_fold_char};
use crate::stage::segment_word::{needs_boundary_between, spec_boundary_between};
use crate::stage::trim::{needs_trim, spec_needs_trim};
use crate::text::{len_utf8, spec_len_utf8, str_chars};

verus! {

/// How many characters of `s` satisfy `f`.
pub open spec fn spec_count_where(s: Seq<char>, f: spec_fn(char) -> bool) -> nat
    decreases s.len(),
{
    if s.len() == 0 {
        0
    } else {
        spec_count_where(s.drop_last(), f) + if f(s.last()) {
            1nat
        } else {
            0nat
        }
    }
}

/// How many bytes the fold of `c` adds beyond `c` itself.
pub open spec fn spec_fold_extra(lang: LangEntryView, c: char) -> nat {
    match spec_find_fold(lang.fold_map, c) {
        Some(m) => if m.to.len() > spec_len_utf8(c) {
            (m.to.len() - spec_len_utf8(c)) as nat
        } else {
            0
        },
        None => 0,
    }
}

/// The bytes the folds of `s` add, in all.
pub open spec fn spec_fold_extra_total(lang: LangEntryView, s: Seq<char>) -> nat
    decreases s.len(),
{
    if s.len() == 0 {
        0
    } else {
        spec_fold_extra_total(lang, s.drop_last()) + spec_fold_extra(lang, s.last())
    }
}

/// Whether `c` is one of the language's spacing diacritics.
pub open spec fn spec_is_diacritic(lang: LangEntryView, c: char) -> bool {
    lang.is_spacing_diacritic(c)
}

/// The rules of a language, and the queries the stages put to them.
pub trait LocaleBehavior {
    /// The language's rules.
    spec fn spec_entry(&self) -> LangEntryView;

    fn entry(&self) -> (r: LangEntry)
        ensures
            r@ == self.spec_entry(),
    ;

    fn id(&self) -> (r: Lang);

    fn case_map(&self) -> (r: Vec<CaseMap>)
        ensures
            r@ == self.spec_entry().case_map,
    {
        let e = self.entry();
        slice_to_vec(e.case_map())
    }

    fn fold_map(&self) -> (r: Vec<FoldMap>)
        ensures
            r@ == self.spec_entry().fold_map,
    {
        let e = self.entry();
        slice_to_vec(e.fold_map())
    }

    /// The language's spacing diacritics, if it has any.
    fn diacritics(&self) -> (r: Option<Vec<char>>)
        ensures
            match r {
                Some(v) => self.spec_entry().spacing_diacritics == Some(v@),
                None => self.spec_entry().spacing_diacritics is None,
            },
    {
        let e = self.entry();
        match e.spacing_diacritics() {
            Some(d) => Some(slice_to_vec(d)),
            None => None,
        }
    }

    fn needs_segmentation(&self) -> (r: bool)
        ensures
            r == self.spec_entry().needs_segmentation,
    {
        self.entry().needs_segmentation()
    }

    /// Whether case folding changes `c`.
    fn needs_case_fold(&self, c: char) -> (r: bool)
        ensures
            r == self.spec_entry().needs_case_fold(c),
    {
        self.entry().needs_case_fold(c)
    }

    /// The one-to-one fold of `c`; `None` where the fold map expands it.
    fn fold_char(&self, c: char) -> (r: Option<char>)
        ensures
            r == spec_fold_char(self.spec_entry(), c),
    {
        fold_char(&self.entry(), c)
    }

    /// Whether lower-casing changes `c`.
    fn needs_lowercase(&self, c: char) -> (r: bool)
        ensures
            r == self.spec_entry().needs_lowercase(c),
    {
        self.entry().needs_lowercase(c)
    }

    /// The lowercase form of `c`: the case map, else the first character
    /// of the Unicode mapping.
    fn lowercase_char(&self, c: char) -> (r: char)
        ensures
            r == self.spec_entry().lowercase_char(c),
    {
        self.entry().apply_lowercase(c)
    }

    fn has_one_to_one_folds(&self) -> (r: bool)
        ensures
            r == self.spec_entry().has_one_to_one_folds,
    {
        self.entry().has_one_to_one_folds()
    }

    fn requires_peek_ahead(&self) -> (r: bool)
        ensures
            r == self.spec_entry().requires_peek_ahead,
    {
        self.entry().requires_peek_ahead()
    }

    /// The fold of `current` when followed by `next`, where the pair folds
    /// as a unit.
    fn peek_ahead_fold(&self, current: char, next: Option<char>) -> (r: Option<&'static str>)
        ensures
            match r {
                Some(s) => self.spec_entry().peek_fold(current, next) == Some(s@),
                None => self.spec_entry().peek_fold(current, next) is None,
            },
    {
        self.entry().get_peek_fold(current, next)
    }

    fn has_diacritics(&self) -> (r: bool)
        ensures
            r == self.spec_entry().spacing_diacritics is Some,
    {
        self.entry().spacing_diacritics().is_some()
    }

    fn is_diacritic(&self, c: char) -> (r: bool)
        ensures
            r == spec_is_diacritic(self.spec_entry(), c),
    {
        self.entry().is_spacing_diacritic(c)
    }

    /// Whether `text` holds one of the language's spacing diacritics.
    fn contains_diacritics(&self, text: &str) -> (r: bool)
        ensures
            r == (self.spec_entry().spacing_diacritics is Some && exists|i: int|
                0 <= i < text@.len() && spec_is_diacritic(self.spec_entry(), #[trigger] text@[i])),
    {
        let e = self.entry();
        if e.spacing_diacritics().is_none() {
            return false;
        }
        let chars = str_chars(text);
        let n = chars.len();
        for i in 0..n
            invariant
                n == chars@.len(),
                chars@ == text@,
                e@ == self.spec_entry(),
                e@.spacing_diacritics is Some,
                forall|j: int| 0 <= j < i ==> !spec_is_diacritic(e@, #[trigger] text@[j]),
        {
            if e.is_spacing_diacritic(chars[i]) {
                assert(spec_is_diacritic(e@, text@[i as int]));
                return true;
            }
        }
        false
    }

    /// Whether `text` starts or ends with whitespace.
    fn needs_trim(&self, text: &str) -> (r: bool)
        ensures
            r == spec_needs_trim(text@),
    {
        needs_trim(text)
    }

    /// How many characters of `text` case folding changes.
    fn count_foldable_chars(&self, text: &str) -> (r: usize)
        ensures
            r == spec_count_where(text@, |c: char| self.spec_entry().needs_case_fold(c)),
    {
        let e = self.entry();
        let chars = str_chars(text);
        let n = chars.len();
        let ghost f = |c: char| self.spec_entry().needs_case_fold(c);
        let mut count: usize = 0;
        for i in 0..n
            invariant
                n == chars@.len(),
                chars@ == text@,
                e@ == self.spec_entry(),
                f == (|c: char| self.spec_entry().needs_case_fold(c)),
                count <= i,
                count == spec_count_where(text@.take(i as int), f),
        {
            assert(text@.take(i + 1).drop_last() =~= text@.take(i as int));
            assert(text@.take(i + 1).last() == chars@[i as int]);
            if e.needs_case_fold(chars[i]) {
                count = count + 1;
            }
        }
        assert(text@.take(n as int) =~= text@);
        count
    }

    /// How many characters of `text` have a fold-map entry, and how many
    /// bytes their folds add beyond them (saturating at `usize::MAX`).
    fn count_foldable_bytes(&self, text: &str) -> (r: (usize, usize))
        ensures
            self.spec_entry().fold_map.len() == 0 ==> r == (0usize, 0usize),
            self.spec_entry().fold_map.len() > 0 ==> r.0 == spec_count_where(
                text@,
                |c: char| spec_find_fold(self.spec_entry().fold_map, c) is Some,
            ),
            self.spec_entry().fold_map.len() > 0 ==> r.1 == (if spec_fold_extra_total(
                self.spec_entry(),
                text@,
            ) > usize::MAX {
                usize::MAX as nat
            } else {
                spec_fold_extra_total(self.spec_entry(), text@)
            }),
    {
        let e = self.entry();
        if e.fold_map().len() == 0 {
            return (0, 0);
        }
        let chars = str_chars(text);
        let n = chars.len();
        let ghost f = |c: char| spec_find_fold(self.spec_entry().fold_map, c) is Some;
        let mut count: usize = 0;
        let mut extra: usize = 0;
        for i in 0..n
            invariant
                n == chars@.len(),
                chars@ == text@,
                e@ == self.spec_entry(),
                f == (|c: char| spec_find_fold(self.spec_entry().fold_map, c) is Some),
                count <= i,
                count == spec_count_where(text@.take(i as int), f),
                extra == (if spec_fold_extra_total(e@, text@.take(i as int)) > usize::MAX {
                    usize::MAX as nat
                } else {
                    spec_fold_extra_total(e@, text@.take(i as int))
                }),
        {
            assert(text@.take(i + 1).drop_last() =~= text@.take(i as int));
            assert(text@.take(i + 1).last() == chars@[i as int]);
            let c = chars[i];
            match e.find_fold_map(c) {
                Some(m) => {
                    count = count + 1;
                    let from_len = len_utf8(c);
                    let to_len = m.to.len();
                    if to_len > from_len {
                        extra = extra.saturating_add(to_len - from_len);
                    }
                },
                None => {},
            }
        }
        assert(text@.take(n as int) =~= text@);
        (count, extra)
    }

    /// How many of the language's spacing diacritics `text` holds.
    fn count_diacritics(&self, text: &str) -> (r: usize)
        ensures
            self.spec_entry().spacing_diacritics is None ==> r == 0,
            self.spec_entry().spacing_diacritics is Some ==> r == spec_count_where(
                text@,
                |c: char| spec_is_diacritic(self.spec_entry(), c),
            ),
    {
        let e = self.entry();
        if e.spacing_diacritics().is_none() {
            return 0;
        }
        let chars = str_chars(text);
        let n = chars.len();
        let ghost f = |c: char| spec_is_diacritic(self.spec_entry(), c);
        let mut count: usize = 0;
        for i in 0..n
            invariant
                n == chars@.len(),
                chars@ == text@,
                e@ == self.spec_entry(),
                f == (|c: char| spec_is_diacritic(self.spec_entry(), c)),
                count <= i,
                count == spec_count_where(text@.take(i as int), f),
        {
            assert(text@.take(i + 1).drop_last() =~= text@.take(i as int));
            assert(text@.take(i + 1).last() == chars@[i as int]);
            if e.is_spacing_diacritic(chars[i]) {
                count = count + 1;
            }
        }
        assert(text@.take(n as int) =~= text@);
        count
    }

    fn needs_unigram_cjk(&self) -> (r: bool)
        ensures
            r == self.spec_entry().unigram_cjk,
    {
        self.entry().needs_unigram_cjk()
    }

    /// The language's segmentation rules; empty where it has none.
    fn segment_rules(&self) -> (r: Vec<SegmentRule>)
        ensures
            r@ == self.spec_entry().segment_rules,
    {
        let e = self.entry();
        slice_to_vec(e.segment_rules())
    }

    /// Whether the language segments words by rules at all.
    fn needs_word_segmentation(&self) -> (r: bool)
        ensures
            r == (self.spec_entry().needs_segmentation && self.spec_entry().segment_rules.len() > 0),
    {
        let e = self.entry();
        e.needs_segmentation() && e.segment_rules().len() > 0
    }

    /// Whether a space belongs between `prev` and `curr`.
    fn needs_boundary_between(&self, prev: char, curr: char) -> (r: bool)
        ensures
            r == spec_boundary_between(self.spec_entry(), prev, curr),
    {
        needs_boundary_between(&self.entry(), prev, curr)
    }
}

impl LocaleBehavior for Lang {
    open spec fn spec_entry(&self) -> LangEntryView {
        spec_lang_entry(*self)
    }

    fn entry(&self) -> (r: LangEntry) {
        lang_entry(*self)
    }

    fn id(&self) -> (r: Lang)
        ensures
            r == *self,
    {
        *self
    }
}

} // verus!
