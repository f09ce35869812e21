//! Language-aware word segmentation: spaces at script transitions, a space
//! between Chinese ideographs, and a zero-width space after an Indic virama.
use vstd::prelude::*;
use std::borrow::Cow;
use crate::context::Context;
use crate::lang::{LangEntry, LangEntryView, SegmentRule};
use crate::stage::{
    CharMapper, Stage, StageError, StaticFusableStage, CharStream, StrChars, collect_stream,
};
use crate::text::{str_chars, str_eq, chars_eq, chars_all_ascii, spec_all_ascii, chars_to_string};
use crate::unicode::{
    CharClass, spec_classify, spec_is_any_whitespace, spec_is_virama,
    spec_should_prevent_indic_break, classify, is_any_whitespace, is_virama,
    should_prevent_indic_break, zwsp,
};

verus! {

/// Language-aware word segmentation.
///
/// Inserts a space where the language's rules call for one at a change of
/// script family, a space between every two CJK ideographs when the language
/// asks for unigram tokens (Chinese), and a zero-width space after a virama
/// that a consonant follows (Hindi keeps its ra/ya/va/ha conjuncts whole).
/// Whitespace, zero-width spaces, zero-width joiners and non-joiners are
/// kept as they are and reset the boundary state. Nothing is removed or
/// changed: segmentation only inserts delimiters.
#[derive(Debug, Default, Clone, Copy)]
pub struct SegmentWords;

/// The language is Hindi, whose conjuncts are kept whole.
pub open spec fn spec_is_hindi(lang: LangEntryView) -> bool {
    lang.code@ == "HIN"@
}

/// Whether a word boundary lies between two characters of these classes.
pub open spec fn spec_check_boundary(prev: CharClass, curr: CharClass, lang: LangEntryView) -> bool {
    let scriptish = |c: CharClass|
        c == CharClass::Cjk || c == CharClass::Hangul || c == CharClass::SEAsian || c
            == CharClass::NonCJKScript || c == CharClass::Indic || c == CharClass::Other;
    if prev == CharClass::Cjk && curr == CharClass::Cjk && lang.unigram_cjk {
        true
    } else if prev == curr {
        false
    } else if prev == CharClass::Western && scriptish(curr) {
        lang.segment_rules.contains(SegmentRule::WesternToScript)
    } else if scriptish(prev) && curr == CharClass::Western {
        lang.segment_rules.contains(SegmentRule::ScriptToWestern)
    } else {
        scriptish(prev) && scriptish(curr)
    }
}

/// A zero-width space is due between a virama and the consonant after it.
pub open spec fn spec_virama_break(prev: char, curr: char, lang: LangEntryView) -> bool {
    &&& spec_classify(prev) == CharClass::Indic
    &&& spec_is_virama(prev)
    &&& !spec_is_virama(curr)
    &&& spec_classify(curr) == CharClass::Indic
    &&& !(spec_is_hindi(lang) && spec_should_prevent_indic_break(curr))
}

/// Characters that end a segment: whitespace and the zero-width space.
pub open spec fn spec_is_segment_reset(c: char) -> bool {
    spec_is_any_whitespace(c) || (c as u32) == 0x200B
}

/// Zero-width joiner and non-joiner.
pub open spec fn spec_is_joiner(c: char) -> bool {
    (c as u32) == 0x200D || (c as u32) == 0x200C
}

/// The delimiter due between `prev` and `curr`, if any.
pub open spec fn spec_delim(prev: char, curr: char, lang: LangEntryView) -> Seq<char> {
    if spec_classify(prev) == CharClass::Indic && spec_is_virama(prev) && !spec_is_virama(curr)
        && spec_classify(curr) == CharClass::Indic {
        if !(spec_is_hindi(lang) && spec_should_prevent_indic_break(curr)) {
            seq!['\u{200B}']
        } else {
            Seq::empty()
        }
    } else if spec_check_boundary(spec_classify(prev), spec_classify(curr), lang) {
        seq![' ']
    } else {
        Seq::empty()
    }
}

pub open spec fn spec_opt_seq(c: Option<char>) -> Seq<char> {
    match c {
        Some(x) => seq![x],
        None => Seq::empty(),
    }
}

/// The segmented rest of the text, given the character held back (the
/// last one of the current segment, not yet emitted).
pub open spec fn spec_seg_run(lang: LangEntryView, s: Seq<char>, prev: Option<char>) -> Seq<char>
    decreases s.len(),
{
    if s.len() == 0 {
        spec_opt_seq(prev)
    } else {
        let curr = s[0];
        let rest = s.drop_first();
        if spec_is_segment_reset(curr) || spec_is_joiner(curr) {
            spec_opt_seq(prev) + seq![curr] + spec_seg_run(lang, rest, None)
        } else {
            match prev {
                Some(p) => seq![p] + spec_delim(p, curr, lang) + spec_seg_run(lang, rest, Some(curr)),
                None => spec_seg_run(lang, rest, Some(curr)),
            }
        }
    }
}

/// The segmented text.
pub open spec fn spec_segment(lang: LangEntryView, text: Seq<char>) -> Seq<char> {
    spec_seg_run(lang, text, None)
}

/// The quick check, from the character before: a virama before an Indic
/// character, or a boundary between classes. Only a space or a zero-width
/// space resets it.
pub open spec fn spec_needs_run(lang: LangEntryView, s: Seq<char>, prev: Option<char>) -> bool
    decreases s.len(),
{
    if s.len() == 0 {
        false
    } else {
        let curr = s[0];
        let rest = s.drop_first();
        if (curr as u32) == 0x20 || (curr as u32) == 0x200B {
            spec_needs_run(lang, rest, None)
        } else {
            let cc = spec_classify(curr);
            ||| (prev matches Some(p) && spec_classify(p) == CharClass::Indic && spec_is_virama(p)
                && cc == CharClass::Indic && !(spec_is_hindi(lang)
                && spec_should_prevent_indic_break(curr)))
            ||| (prev matches Some(p) && spec_check_boundary(spec_classify(p), cc, lang))
            ||| spec_needs_run(lang, rest, Some(curr))
        }
    }
}

pub open spec fn spec_needs_segmentation(text: Seq<char>, lang: LangEntryView) -> bool {
    spec_needs_run(lang, text, None)
}

/// The characters compared by value here are the ones their code points name.
proof fn lemma_char_codes(c: char)
    ensures
        (c == ' ') == ((c as u32) == 0x20),
        (c == '\u{200B}') == ((c as u32) == 0x200B),
        (c == '\u{200C}') == ((c as u32) == 0x200C),
        (c == '\u{200D}') == ((c as u32) == 0x200D),
{
}

fn is_hindi(lang: &LangEntry) -> (r: bool)
    ensures
        r == spec_is_hindi(lang@),
{
    str_eq(lang.code(), "HIN")
}

fn is_scriptish(c: CharClass) -> (r: bool)
    ensures
        r == (c == CharClass::Cjk || c == CharClass::Hangul || c == CharClass::SEAsian || c
            == CharClass::NonCJKScript || c == CharClass::Indic || c == CharClass::Other),
{
    match c {
        CharClass::Cjk | CharClass::Hangul | CharClass::SEAsian | CharClass::NonCJKScript
        | CharClass::Indic | CharClass::Other => true,
        _ => false,
    }
}

/// Whether a word boundary lies between two characters of these classes.
pub fn check_boundary_with_classes(prev_class: CharClass, curr_class: CharClass, lang: &LangEntry) -> (r:
    bool)
    ensures
        r == spec_check_boundary(prev_class, curr_class, lang@),
{
    if prev_class == CharClass::Cjk && curr_class == CharClass::Cjk && lang.needs_unigram_cjk() {
        return true;
    }
    if prev_class == curr_class {
        return false;
    }
    if prev_class == CharClass::Western && is_scriptish(curr_class) {
        lang.segment_rules_contain(SegmentRule::WesternToScript)
    } else if is_scriptish(prev_class) && curr_class == CharClass::Western {
        lang.segment_rules_contain(SegmentRule::ScriptToWestern)
    } else {
        is_scriptish(prev_class) && is_scriptish(curr_class)
    }
}

/// Whether segmenting `text` may insert anything.
pub fn needs_segmentation(text: &str, lang: &LangEntry) -> (r: bool)
    ensures
        r == spec_needs_segmentation(text@, lang@),
{
    let chars = str_chars(text);
    let n = chars.len();
    let hindi = is_hindi(lang);
    let mut prev_char: Option<char> = None;
    let mut prev_class: Option<CharClass> = None;
    assert(text@.skip(0) =~= text@);
    for i in 0..n
        invariant
            n == chars@.len(),
            chars@ == text@,
            hindi == spec_is_hindi(lang@),
            prev_class == (match prev_char {
                Some(p) => Some(spec_classify(p)),
                None => None::<CharClass>,
            }),
            spec_needs_segmentation(text@, lang@) == spec_needs_run(lang@, text@.skip(i as int), prev_char),
    {
        let curr = chars[i];
        proof {
            assert(text@.skip(i as int).drop_first() =~= text@.skip(i + 1));
            assert(text@.skip(i as int)[0] == curr);
            lemma_char_codes(curr);
        }
        if curr == ' ' || curr == zwsp() {
            prev_class = None;
            prev_char = None;
        } else {
            let curr_class = classify(curr);
            match prev_char {
                Some(p) => {
                    if prev_class == Some(CharClass::Indic) && is_virama(p) && curr_class
                        == CharClass::Indic && !(hindi && should_prevent_indic_break(curr)) {
                        return true;
                    }
                },
                None => {},
            }
            match prev_class {
                Some(pc) => {
                    if check_boundary_with_classes(pc, curr_class, lang) {
                        return true;
                    }
                },
                None => {},
            }
            prev_class = Some(curr_class);
            prev_char = Some(curr);
        }
    }
    false
}

/// Segments `chars` one character at a time.
pub struct SegmentWordIterator<'a, I> {
    lang: &'a LangEntry,
    inner: I,
    prev_char: Option<char>,
    prev_class: Option<CharClass>,
    prev_is_virama: bool,
    pending_space: Option<char>,
}

impl<'a, I: CharStream> SegmentWordIterator<'a, I> {
    /// The segmenting iterator over `iter`.
    pub fn new(iter: I, lang: &'a LangEntry) -> (r: SegmentWordIterator<'a, I>)
        requires
            iter.stream_inv(),
        ensures
            r.stream_inv(),
            r.rest() == spec_segment(lang@, iter.rest()),
    {
        segment_chars(iter, lang)
    }
}

impl<'a, I: CharStream> CharStream for SegmentWordIterator<'a, I> {
    closed spec fn rest(&self) -> Seq<char> {
        spec_opt_seq(self.pending_space) + spec_seg_run(self.lang@, self.inner.rest(), self.prev_char)
    }

    closed spec fn stream_inv(&self) -> bool {
        &&& self.inner.stream_inv()
        &&& self.prev_class == (match self.prev_char {
            Some(p) => Some(spec_classify(p)),
            None => None::<CharClass>,
        })
        &&& self.prev_is_virama == (self.prev_char matches Some(p) && spec_is_virama(p))
        &&& self.prev_char matches Some(p) ==> !spec_is_segment_reset(p) && !spec_is_joiner(p)
    }

    fn next_char(&mut self) -> (r: Option<char>) {
        match self.pending_space {
            Some(space) => {
                self.pending_space = None;
                return Some(space);
            },
            None => {},
        }
        let ghost all = self.rest();
        loop
            invariant
                self.stream_inv(),
                self.pending_space is None,
                self.rest() == all,
                all == old(self).rest(),
            decreases self.inner.rest().len(),
        {
            let ghost before = self.inner.rest();
            let curr = match self.inner.next_char() {
                Some(c) => c,
                None => {
                    let p = self.prev_char;
                    self.prev_char = None;
                    self.prev_class = None;
                    self.prev_is_virama = false;
                    return p;
                },
            };
            assert(before =~= seq![curr] + self.inner.rest());
            assert(before.drop_first() =~= self.inner.rest());
            if is_any_whitespace(curr) || curr == zwsp() {
                match self.prev_char {
                    Some(prev) => {
                        self.prev_char = None;
                        self.prev_class = None;
                        self.prev_is_virama = false;
                        self.pending_space = Some(curr);
                        return Some(prev);
                    },
                    None => {
                        return Some(curr);
                    },
                }
            }
            proof {
                lemma_char_codes(curr);
            }
            if curr == '\u{200D}' || curr == '\u{200C}' {
                match self.prev_char {
                    Some(prev) => {
                        self.prev_char = None;
                        self.prev_class = None;
                        self.prev_is_virama = false;
                        self.pending_space = Some(curr);
                        return Some(prev);
                    },
                    None => {
                        return Some(curr);
                    },
                }
            }
            let curr_class = classify(curr);
            let curr_is_virama = is_virama(curr);
            match self.prev_char {
                Some(prev) => {
                    let prev_class = curr_class;
                    let mut need_boundary = false;
                    let mut use_zwsp = false;
                    let pc = match self.prev_class {
                        Some(pc) => pc,
                        None => curr_class,
                    };
                    if pc == CharClass::Indic && self.prev_is_virama && !curr_is_virama && curr_class
                        == CharClass::Indic {
                        if !(is_hindi(self.lang) && should_prevent_indic_break(curr)) {
                            need_boundary = true;
                            use_zwsp = true;
                        }
                    } else if check_boundary_with_classes(pc, curr_class, self.lang) {
                        need_boundary = true;
                        use_zwsp = false;
                    }
                    if need_boundary {
                        let delim = if use_zwsp {
                            zwsp()
                        } else {
                            ' '
                        };
                        self.pending_space = Some(delim);
                    }
                    self.prev_char = Some(curr);
                    self.prev_class = Some(prev_class);
                    self.prev_is_virama = curr_is_virama;
                    return Some(prev);
                },
                None => {
                    self.prev_char = Some(curr);
                    self.prev_class = Some(curr_class);
                    self.prev_is_virama = curr_is_virama;
                },
            }
        }
    }
}

/// The segmenting iterator over `chars`.
pub fn segment_chars<'a, I: CharStream>(chars: I, lang: &'a LangEntry) -> (r: SegmentWordIterator<
    'a,
    I,
>)
    requires
        chars.stream_inv(),
    ensures
        r.stream_inv(),
        r.rest() == spec_segment(lang@, chars.rest()),
{
    let r = SegmentWordIterator {
        lang,
        inner: chars,
        prev_char: None,
        prev_class: None,
        prev_is_virama: false,
        pending_space: None,
    };
    assert(r.rest() =~= spec_segment(lang@, r.inner.rest()));
    r
}

/// The segmented text, built in one go.
pub fn segment_allocating(text: &str, lang: &LangEntry) -> (r: String)
    ensures
        r@ == spec_segment(lang@, text@),
{
    let mut it = segment_chars(StrChars::new(text), lang);
    collect_stream(&mut it)
}

/// Segmentation leaves a text alone when the quick check finds nothing.
/// `pn` is the quick check's remembered character,
/// `ps` the one the segmenter holds back; they agree, or the segmenter holds
/// nothing.
proof fn lemma_seg_identity(lang: LangEntryView, s: Seq<char>, pn: Option<char>, ps: Option<char>)
    requires
        ps is Some ==> ps == pn,
        ps matches Some(p) ==> !spec_is_segment_reset(p) && !spec_is_joiner(p),
        !spec_needs_run(lang, s, pn),
    ensures
        spec_seg_run(lang, s, ps) == spec_opt_seq(ps) + s,
    decreases s.len(),
{
    if s.len() == 0 {
        assert(spec_opt_seq(ps) + s =~= spec_opt_seq(ps));
    } else {
        let curr = s[0];
        let rest = s.drop_first();
        if spec_is_segment_reset(curr) || spec_is_joiner(curr) {
            if (curr as u32) == 0x20 || (curr as u32) == 0x200B {
                lemma_seg_identity(lang, rest, None, None);
            } else {
                lemma_seg_identity(lang, rest, Some(curr), None);
            }
            assert(spec_opt_seq(ps) + seq![curr] + (spec_opt_seq(None) + rest) =~= spec_opt_seq(ps)
                + s);
        } else {
            if (curr as u32) == 0x20 || (curr as u32) == 0x200B {
                assert(spec_is_segment_reset(curr)) by {
                    if (curr as u32) == 0x20 {
                        assert(spec_is_any_whitespace(curr));
                    }
                }
            }
            lemma_seg_identity(lang, rest, Some(curr), Some(curr));
            match ps {
                Some(p) => {
                    assert(spec_delim(p, curr, lang) =~= Seq::<char>::empty());
                    assert(seq![p] + Seq::<char>::empty() + (seq![curr] + rest) =~= spec_opt_seq(ps)
                        + s);
                },
                None => {
                    assert(seq![curr] + rest =~= spec_opt_seq(ps) + s);
                },
            }
        }
    }
}

/// Text that segmentation leaves as it is, read from the character held
/// back: no delimiter is due between two neighbouring characters.
pub open spec fn spec_seg_settled(lang: LangEntryView, s: Seq<char>, prev: Option<char>) -> bool
    decreases s.len(),
{
    if s.len() == 0 {
        true
    } else {
        let c = s[0];
        if spec_is_segment_reset(c) || spec_is_joiner(c) {
            spec_seg_settled(lang, s.drop_first(), None)
        } else {
            (prev matches Some(p) ==> spec_delim(p, c, lang) == Seq::<char>::empty())
                && spec_seg_settled(lang, s.drop_first(), Some(c))
        }
    }
}

proof fn lemma_seg_settled_identity(lang: LangEntryView, s: Seq<char>, prev: Option<char>)
    requires
        spec_seg_settled(lang, s, prev),
        prev matches Some(p) ==> !spec_is_segment_reset(p) && !spec_is_joiner(p),
    ensures
        spec_seg_run(lang, s, prev) == spec_opt_seq(prev) + s,
    decreases s.len(),
{
    if s.len() == 0 {
        assert(spec_opt_seq(prev) + s =~= spec_opt_seq(prev));
    } else {
        let c = s[0];
        let rest = s.drop_first();
        if spec_is_segment_reset(c) || spec_is_joiner(c) {
            lemma_seg_settled_identity(lang, rest, None);
            assert(spec_opt_seq(prev) + seq![c] + (spec_opt_seq(None) + rest) =~= spec_opt_seq(prev)
                + s);
        } else {
            lemma_seg_settled_identity(lang, rest, Some(c));
            match prev {
                Some(p) => {
                    assert(seq![p] + spec_delim(p, c, lang) + (seq![c] + rest) =~= spec_opt_seq(prev)
                        + s);
                },
                None => {
                    assert(seq![c] + rest =~= spec_opt_seq(prev) + s);
                },
            }
        }
    }
}

/// Prepending a character to settled text, read from `prev`.
proof fn lemma_seg_settled_cons(lang: LangEntryView, c: char, w: Seq<char>, prev: Option<char>)
    ensures
        spec_seg_settled(lang, seq![c] + w, prev) == (if spec_is_segment_reset(c) || spec_is_joiner(
            c,
        ) {
            spec_seg_settled(lang, w, None)
        } else {
            (prev matches Some(p) ==> spec_delim(p, c, lang) == Seq::<char>::empty())
                && spec_seg_settled(lang, w, Some(c))
        }),
{
    let t = seq![c] + w;
    assert(t[0] == c);
    assert(t.drop_first() =~= w);
}

/// Segmented text is settled; with a character held back, it starts with
/// that character and is settled after it.
proof fn lemma_seg_output_settled(lang: LangEntryView, s: Seq<char>, prev: Option<char>)
    requires
        prev matches Some(p) ==> !spec_is_segment_reset(p) && !spec_is_joiner(p),
    ensures
        prev is None ==> spec_seg_settled(lang, spec_seg_run(lang, s, prev), None),
        prev matches Some(p) ==> {
            let o = spec_seg_run(lang, s, prev);
            &&& o.len() > 0
            &&& o[0] == p
            &&& spec_seg_settled(lang, o.drop_first(), prev)
        },
    decreases s.len(),
{
    let o = spec_seg_run(lang, s, prev);
    if s.len() == 0 {
        if let Some(p) = prev {
            assert(o.drop_first() =~= Seq::<char>::empty());
        }
    } else {
        let c = s[0];
        let rest = s.drop_first();
        if spec_is_segment_reset(c) || spec_is_joiner(c) {
            lemma_seg_output_settled(lang, rest, None);
            let r = spec_seg_run(lang, rest, None);
            lemma_seg_settled_cons(lang, c, r, prev);
            match prev {
                Some(p) => {
                    assert(o == seq![p] + (seq![c] + r));
                    assert(o.drop_first() =~= seq![c] + r);
                },
                None => {
                    assert(o =~= seq![c] + r);
                },
            }
        } else {
            lemma_seg_output_settled(lang, rest, Some(c));
            let r = spec_seg_run(lang, rest, Some(c));
            let w = r.drop_first();
            assert(r =~= seq![c] + w);
            lemma_seg_settled_cons(lang, c, w, None);
            lemma_char_codes(c);
            match prev {
                Some(p) => {
                    let d = spec_delim(p, c, lang);
                    assert(o == seq![p] + d + r);
                    if d.len() == 0 {
                        lemma_seg_settled_cons(lang, c, w, prev);
                        assert(o.drop_first() =~= seq![c] + w);
                    } else {
                        let dc = d[0];
                        assert(d == seq![dc]);
                        assert(spec_is_segment_reset(dc)) by {
                            lemma_char_codes(dc);
                            if (dc as u32) == 0x20 {
                                assert(spec_is_any_whitespace(dc));
                            }
                        }
                        lemma_seg_settled_cons(lang, dc, seq![c] + w, prev);
                        assert(o.drop_first() =~= seq![dc] + (seq![c] + w));
                    }
                },
                None => {},
            }
        }
    }
}

/// A character next to which a delimiter may go: neither whitespace, a
/// zero-width space, nor a joiner.
pub open spec fn spec_is_word_char(c: char) -> bool {
    !spec_is_segment_reset(c) && !spec_is_joiner(c)
}

/// The delimiter between two neighbouring characters of the text.
pub open spec fn spec_gap(lang: LangEntryView, a: char, b: char) -> Seq<char> {
    if spec_is_word_char(a) && spec_is_word_char(b) {
        spec_delim(a, b, lang)
    } else {
        Seq::empty()
    }
}

/// The text with the delimiter due between each two neighbouring
/// characters put in between them.
pub open spec fn spec_with_delims(lang: LangEntryView, s: Seq<char>) -> Seq<char>
    decreases s.len(),
{
    if s.len() <= 1 {
        s
    } else {
        seq![s[0]] + spec_gap(lang, s[0], s[1]) + spec_with_delims(lang, s.drop_first())
    }
}

proof fn lemma_seg_run_with_delims(lang: LangEntryView, s: Seq<char>, prev: Option<char>)
    requires
        prev matches Some(p) ==> spec_is_word_char(p),
    ensures
        spec_seg_run(lang, s, prev) == spec_with_delims(lang, spec_opt_seq(prev) + s),
    decreases s.len(),
{
    let t = spec_opt_seq(prev) + s;
    if s.len() == 0 {
        assert(t =~= spec_opt_seq(prev));
    } else {
        let curr = s[0];
        let rest = s.drop_first();
        assert(seq![curr] + rest =~= s);
        if spec_is_segment_reset(curr) || spec_is_joiner(curr) {
            lemma_seg_run_with_delims(lang, rest, None);
            assert(spec_opt_seq(None) + rest =~= rest);
            if rest.len() > 0 {
                assert(spec_with_delims(lang, s) == seq![curr] + spec_gap(lang, s[0], s[1])
                    + spec_with_delims(lang, s.drop_first()));
                assert(spec_gap(lang, s[0], s[1]) =~= Seq::<char>::empty());
                assert(spec_with_delims(lang, s) =~= seq![curr] + spec_with_delims(lang, rest));
            } else {
                assert(spec_with_delims(lang, s) =~= seq![curr] + spec_with_delims(lang, rest));
            }
            match prev {
                Some(p) => {
                    assert(t[0] == p && t[1] == curr);
                    assert(t.drop_first() =~= s);
                    assert(spec_gap(lang, p, curr) =~= Seq::<char>::empty());
                    assert(spec_with_delims(lang, t) =~= seq![p] + spec_with_delims(lang, s));
                    assert(spec_seg_run(lang, s, prev) =~= seq![p] + seq![curr]
                        + spec_with_delims(lang, rest));
                },
                None => {
                    assert(t =~= s);
                    assert(spec_seg_run(lang, s, prev) =~= Seq::<char>::empty() + seq![curr]
                        + spec_with_delims(lang, rest));
                },
            }
        } else {
            lemma_seg_run_with_delims(lang, rest, Some(curr));
            match prev {
                Some(p) => {
                    assert(t[0] == p && t[1] == curr);
                    assert(t.drop_first() =~= s);
                    assert(spec_gap(lang, p, curr) == spec_delim(p, curr, lang));
                },
                None => {
                    assert(t =~= s);
                },
            }
        }
    }
}

/// Segmentation only inserts: the segmented text is the text with, between
/// each two neighbouring characters, the delimiter due there, and that
/// delimiter is nothing, a space or a zero-width space. No delimiter goes
/// next to whitespace, a zero-width space or a joiner, and none at either end.
pub proof fn lemma_segment_only_inserts(lang: LangEntryView, text: Seq<char>)
    ensures
        spec_segment(lang, text) == spec_with_delims(lang, text),
        forall|a: char, b: char|
            #![trigger spec_gap(lang, a, b)]
            spec_gap(lang, a, b) == Seq::<char>::empty() || spec_gap(lang, a, b) == seq![' ']
                || spec_gap(lang, a, b) == seq!['\u{200B}'],
{
    lemma_seg_run_with_delims(lang, text, None);
    assert(spec_opt_seq(None) + text =~= text);
}

/// One of the viramas of the Indic scripts: Devanagari, Bengali, Gurmukhi,
/// Gujarati, Oriya, Tamil, Telugu, Kannada, Malayalam, Sinhala.
pub open spec fn spec_is_indic_script_virama(v: char) -> bool {
    let cp = v as u32;
    cp == 0x094D || cp == 0x09CD || cp == 0x0A4D || cp == 0x0ACD || cp == 0x0B4D || cp == 0x0BCD
        || cp == 0x0C4D || cp == 0x0CCD || cp == 0x0D4D || cp == 0x0DCA
}

/// A virama of an Indic script followed by another character of the Indic
/// blocks (U+0900 to U+0DFF) that is not itself a virama gets a zero-width
/// space between them, in every language but Hindi: segmenting the pair
/// gives the virama, U+200B, the character.
pub proof fn lemma_zwsp_after_virama(lang: LangEntryView, v: char, x: char)
    requires
        spec_is_indic_script_virama(v),
        0x0900 <= (x as u32) <= 0x0DFF,
        !spec_is_indic_script_virama(x),
        lang.code@ != "HIN"@,
    ensures
        spec_segment(lang, seq![v, x]) == seq![v, '\u{200B}', x],
{
    let s = seq![v, x];
    assert(!spec_is_segment_reset(v) && !spec_is_joiner(v));
    assert(!spec_is_segment_reset(x) && !spec_is_joiner(x));
    assert(spec_classify(v) == CharClass::Indic);
    assert(spec_classify(x) == CharClass::Indic);
    assert(spec_is_virama(v) && !spec_is_virama(x));
    assert(spec_delim(v, x, lang) == seq!['\u{200B}']);
    assert(s[0] == v && s.drop_first() =~= seq![x]);
    let r = seq![x];
    assert(r[0] == x && r.drop_first() =~= Seq::<char>::empty());
    assert(spec_seg_run(lang, r, Some(v)) == seq![v] + seq!['\u{200B}'] + spec_seg_run(
        lang,
        Seq::<char>::empty(),
        Some(x),
    ));
    assert(spec_seg_run(lang, Seq::<char>::empty(), Some(x)) == seq![x]);
    assert(seq![v] + seq!['\u{200B}'] + seq![x] =~= seq![v, '\u{200B}', x]);
}

/// The stage, under rules that segment, puts a zero-width space between an
/// Indic virama and the Indic character after it, as stated above.
pub proof fn lemma_stage_zwsp_after_virama(v: char, x: char, ctx: &Context)
    requires
        spec_is_indic_script_virama(v),
        0x0900 <= (x as u32) <= 0x0DFF,
        !spec_is_indic_script_virama(x),
        ctx.lang_entry@.code@ != "HIN"@,
        ctx.lang_entry@.needs_segmentation,
        ctx.lang_entry@.has_segment_rules,
    ensures
        SegmentWords.spec_apply(seq![v, x], ctx) == seq![v, '\u{200B}', x],
{
    lemma_zwsp_after_virama(ctx.lang_entry@, v, x);
    assert(!spec_all_ascii(seq![v, x])) by {
        assert((seq![v, x][0] as u32) >= 0x80);
    }
}

proof fn lemma_segment_pair(lang: LangEntryView, p: char, q: char)
    requires
        !spec_is_segment_reset(p) && !spec_is_joiner(p),
        !spec_is_segment_reset(q) && !spec_is_joiner(q),
    ensures
        spec_segment(lang, seq![p, q]) == seq![p] + spec_delim(p, q, lang) + seq![q],
{
    let s = seq![p, q];
    assert(s[0] == p && s.drop_first() =~= seq![q]);
    let r = seq![q];
    assert(r[0] == q && r.drop_first() =~= Seq::<char>::empty());
    assert(spec_seg_run(lang, Seq::<char>::empty(), Some(q)) == seq![q]);
    assert(spec_seg_run(lang, r, Some(p)) == seq![p] + spec_delim(p, q, lang) + spec_seg_run(
        lang,
        Seq::<char>::empty(),
        Some(q),
    ));
    assert(spec_seg_run(lang, s, None) == spec_seg_run(lang, r, Some(p)));
}

/// Under unigram rules (Chinese), two CJK unified ideographs get a space
/// between them.
pub proof fn lemma_unigram_space_between_ideographs(lang: LangEntryView, p: char, q: char)
    requires
        lang.unigram_cjk,
        0x4E00 <= (p as u32) <= 0x9FFF,
        0x4E00 <= (q as u32) <= 0x9FFF,
    ensures
        spec_segment(lang, seq![p, q]) == seq![p, ' ', q],
{
    assert(spec_classify(p) == CharClass::Cjk && spec_classify(q) == CharClass::Cjk);
    assert(!spec_is_virama(p));
    lemma_segment_pair(lang, p, q);
    assert(seq![p] + seq![' '] + seq![q] =~= seq![p, ' ', q]);
}

/// Without unigram rules (Japanese, Korean, ...), two CJK unified
/// ideographs stay together.
pub proof fn lemma_no_space_between_ideographs(lang: LangEntryView, p: char, q: char)
    requires
        !lang.unigram_cjk,
        0x4E00 <= (p as u32) <= 0x9FFF,
        0x4E00 <= (q as u32) <= 0x9FFF,
    ensures
        spec_segment(lang, seq![p, q]) == seq![p, q],
{
    assert(spec_classify(p) == CharClass::Cjk && spec_classify(q) == CharClass::Cjk);
    assert(!spec_is_virama(p));
    lemma_segment_pair(lang, p, q);
    assert(seq![p] + Seq::<char>::empty() + seq![q] =~= seq![p, q]);
}

/// A language that breaks between Western text and other scripts puts a
/// space between an ASCII letter or digit and a CJK unified ideograph after
/// it; one that breaks between other scripts and Western text puts a space
/// between an ideograph and an ASCII letter or digit after it.
pub proof fn lemma_space_at_script_change(lang: LangEntryView, w: char, h: char)
    requires
        ('a' <= w && w <= 'z') || ('A' <= w && w <= 'Z') || ('0' <= w && w <= '9'),
        0x4E00 <= (h as u32) <= 0x9FFF,
    ensures
        lang.segment_rules.contains(SegmentRule::WesternToScript) ==> spec_segment(lang, seq![w, h])
            == seq![w, ' ', h],
        lang.segment_rules.contains(SegmentRule::ScriptToWestern) ==> spec_segment(lang, seq![h, w])
            == seq![h, ' ', w],
{
    assert(spec_classify(w) == CharClass::Western);
    assert(spec_classify(h) == CharClass::Cjk);
    assert(!spec_is_virama(w) && !spec_is_virama(h));
    assert(!spec_is_segment_reset(w) && !spec_is_joiner(w));
    lemma_segment_pair(lang, w, h);
    lemma_segment_pair(lang, h, w);
    assert(seq![w] + seq![' '] + seq![h] =~= seq![w, ' ', h]);
    assert(seq![h] + seq![' '] + seq![w] =~= seq![h, ' ', w]);
}

/// Segmenting segmented text changes nothing.
proof fn lemma_segment_idempotent(lang: LangEntryView, text: Seq<char>)
    ensures
        spec_segment(lang, spec_segment(lang, text)) == spec_segment(lang, text),
{
    lemma_seg_output_settled(lang, text, None);
    lemma_seg_settled_identity(lang, spec_segment(lang, text), None);
    assert(spec_opt_seq(None) + spec_segment(lang, text) =~= spec_segment(lang, text));
}

impl SegmentWords {
    /// Applying the stage a second time changes nothing.
    pub proof fn lemma_segment_words_idempotent(&self, text: Seq<char>, ctx: &Context)
        ensures
            self.spec_apply(self.spec_apply(text, ctx), ctx) == self.spec_apply(text, ctx),
    {
        lemma_segment_idempotent(ctx.lang_entry@, text);
    }
}

/// ASCII text holds no boundary unless the language breaks between
/// Western text and other scripts.
proof fn lemma_ascii_needs_no_segmentation(lang: LangEntryView, s: Seq<char>, prev: Option<char>)
    requires
        spec_all_ascii(s),
        prev matches Some(p) ==> (p as u32) < 0x80,
        !lang.segment_rules.contains(SegmentRule::WesternToScript),
        !lang.segment_rules.contains(SegmentRule::ScriptToWestern),
    ensures
        !spec_needs_run(lang, s, prev),
    decreases s.len(),
{
    if s.len() > 0 {
        let c = s[0];
        let rest = s.drop_first();
        assert((s[0] as u32) < 0x80);
        assert forall|i: int| 0 <= i < rest.len() implies (#[trigger] rest[i] as u32) < 0x80 by {
            assert(rest[i] == s[i + 1]);
            assert((s[i + 1] as u32) < 0x80);
        }
        if (c as u32) == 0x20 || (c as u32) == 0x200B {
            lemma_ascii_needs_no_segmentation(lang, rest, None);
        } else {
            lemma_ascii_needs_no_segmentation(lang, rest, Some(c));
        }
    }
}

/// `bind` yields what `apply` gives: segmentation leaves ASCII text alone
/// when the language does not break between Western text and other scripts.
pub proof fn lemma_bind_is_apply(text: Seq<char>, ctx: &Context)
    ensures
        SegmentWords.spec_bind(text, ctx) == SegmentWords.spec_apply(text, ctx),
{
    let l = ctx.lang_entry@;
    if l.needs_segmentation && l.has_segment_rules && spec_all_ascii(text)
        && !l.segment_rules.contains(SegmentRule::WesternToScript)
        && !l.segment_rules.contains(SegmentRule::ScriptToWestern) {
        lemma_ascii_needs_no_segmentation(l, text, None);
        lemma_seg_identity(l, text, None, None);
        assert(spec_opt_seq(None) + text =~= text);
    }
}

impl SegmentWords {
    /// The stage as a character map, where the language segments at all.
    pub fn as_char_mapper(&self, ctx: &Context) -> (r: Option<&SegmentWords>)
        ensures
            r == (if ctx.lang_entry@.needs_segmentation && ctx.lang_entry@.has_segment_rules {
                Some(self)
            } else {
                None::<&SegmentWords>
            }),
    {
        if ctx.lang_entry.needs_segmentation() && ctx.lang_entry.has_segment_rules() {
            Some(self)
        } else {
            None
        }
    }
}

/// As a character map the stage keeps each character; its work is done by
/// `bind`, which segments the whole text.
impl CharMapper for SegmentWords {
    open spec fn spec_map(&self, c: char, ctx: &Context) -> Option<char> {
        Some(c)
    }

    open spec fn spec_bind(&self, text: Seq<char>, ctx: &Context) -> Seq<char> {
        let l = ctx.lang_entry@;
        if l.needs_segmentation && l.has_segment_rules {
            spec_segment(l, text)
        } else {
            text
        }
    }

    fn map(&self, c: char, ctx: &Context) -> (r: Option<char>) {
        Some(c)
    }

    fn bind(&self, text: &str, ctx: &Context) -> (r: String) {
        if !ctx.lang_entry.needs_segmentation() || !ctx.lang_entry.has_segment_rules() {
            let mut all = StrChars::new(text);
            return collect_stream(&mut all);
        }
        segment_allocating(text, &ctx.lang_entry)
    }
}

impl Stage for SegmentWords {
    open spec fn spec_needs_apply(&self, text: Seq<char>, ctx: &Context) -> bool {
        let l = ctx.lang_entry@;
        l.needs_segmentation && l.has_segment_rules && spec_needs_segmentation(text, l)
    }

    open spec fn spec_apply(&self, text: Seq<char>, ctx: &Context) -> Seq<char> {
        let l = ctx.lang_entry@;
        if !(l.needs_segmentation && l.has_segment_rules) {
            text
        } else if spec_all_ascii(text) && !l.segment_rules.contains(SegmentRule::WesternToScript)
            && !l.segment_rules.contains(SegmentRule::ScriptToWestern) {
            text
        } else {
            spec_segment(l, text)
        }
    }

    open spec fn spec_skip_sound(&self, text: Seq<char>, ctx: &Context) -> bool {
        true
    }

    fn name(&self) -> (r: &'static str)
        ensures
            r@ == "segment_words"@,
    {
        "segment_words"
    }

    fn needs_apply(&self, text: &str, ctx: &Context) -> (r: Result<bool, StageError>) {
        if !ctx.lang_entry.needs_segmentation() {
            return Ok(false);
        }
        if !ctx.lang_entry.has_segment_rules() {
            return Ok(false);
        }
        Ok(needs_segmentation(text, &ctx.lang_entry))
    }

    /// A text that segmentation leaves as it is comes back as it came.
    fn apply<'a>(&self, text: Cow<'a, str>, ctx: &Context) -> (r: Result<Cow<'a, str>, StageError>)
        ensures
            self.spec_apply(text@, ctx) == text@ ==> r == Ok::<Cow<'a, str>, StageError>(text),
    {
        if !ctx.lang_entry.needs_segmentation() {
            return Ok(text);
        }
        if !ctx.lang_entry.has_segment_rules() {
            return Ok(text);
        }
        let s: &str = match &text {
            Cow::Borrowed(b) => b,
            Cow::Owned(o) => o.as_str(),
        };
        let chars = str_chars(s);
        if chars_all_ascii(&chars) {
            if !ctx.lang_entry.segment_rules_contain(SegmentRule::WesternToScript)
                && !ctx.lang_entry.segment_rules_contain(SegmentRule::ScriptToWestern) {
                return Ok(text);
            }
        }
        let out = segment_allocating(s, &ctx.lang_entry);
        if str_eq(out.as_str(), s) {
            Ok(text)
        } else {
            Ok(Cow::Owned(out))
        }
    }

    open spec fn spec_safe_skip(&self) -> bool {
        false
    }

    fn safe_skip_approximation(&self) -> (r: bool) {
        false
    }

    proof fn lemma_apply_when_not_needed(&self, text: Seq<char>, ctx: &Context) {
        if !self.spec_needs_apply(text, ctx) && self.spec_skip_sound(text, ctx) {
            let l = ctx.lang_entry@;
            if l.needs_segmentation && l.has_segment_rules {
                lemma_seg_identity(l, text, None, None);
                assert(spec_opt_seq(None) + text =~= text);
            }
        }
    }
}

impl StaticFusableStage for SegmentWords {

    open spec fn spec_sound_everywhere(&self, ctx: &Context) -> bool {
        true
    }

    proof fn lemma_sound_everywhere(&self, text: Seq<char>, ctx: &Context) {
    }
    open spec fn spec_supports_static_fusion(&self) -> bool {
        false
    }

    open spec fn spec_fused(&self, text: Seq<char>, ctx: &Context) -> Seq<char> {
        text
    }

    open spec fn spec_fused_sound(&self, text: Seq<char>, ctx: &Context) -> bool {
        true
    }

    fn supports_static_fusion(&self) -> (r: bool) {
        false
    }

    fn fused_apply(&self, text: &str, ctx: &Context) -> (r: String) {
        let chars = str_chars(text);
        chars_to_string(&chars)
    }

    proof fn lemma_fused_is_apply(&self, text: Seq<char>, ctx: &Context) {
    }
}

} // verus!
