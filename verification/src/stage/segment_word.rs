//! Word segmentation that also collapses whitespace: in a language that
//! segments, runs of whitespace become one space, leading and trailing
//! whitespace goes, and a space is inserted where the language's rules ask
//! for a boundary between two scripts.
use vstd::prelude::*;
use std::borrow::Cow;
use crate::context::Context;
use crate::lang::{LangEntry, LangEntryView, SegmentRule};
use crate::process::cow_str;
use crate::stage::{CharMapper, CharStream, Stage, StageError, StaticFusableStage, StrChars, collect_stream};
use crate::text::str_chars;
use crate::unicode::{CharClass, classify, is_any_whitespace, spec_classify, spec_is_any_whitespace};

verus! {

/// Inserts spaces between scripts where the language asks for it, and
/// collapses whitespace.
#[derive(Debug, Default, Clone, Copy)]
pub struct SegmentWord;

/// The script classes on the far side of a Western/script boundary.
pub open spec fn spec_is_script_class(c: CharClass) -> bool {
    c == CharClass::Cjk || c == CharClass::Hangul || c == CharClass::SEAsian || c
        == CharClass::NonCJKScript
}

/// Whether a space belongs between `prev` and `curr`: never next to
/// whitespace or inside one script class; between Western text and a
/// script as the language's rules say; between two other classes always.
pub open spec fn spec_boundary_between(lang: LangEntryView, prev: char, curr: char) -> bool {
    if spec_is_any_whitespace(prev) || spec_is_any_whitespace(curr) {
        false
    } else {
        let pc = spec_classify(prev);
        let cc = spec_classify(curr);
        if pc == cc {
            false
        } else if pc == CharClass::Western && spec_is_script_class(cc) {
            lang.segment_rules.contains(SegmentRule::WesternToScript)
        } else if spec_is_script_class(pc) && cc == CharClass::Western {
            lang.segment_rules.contains(SegmentRule::ScriptToWestern)
        } else {
            true
        }
    }
}

/// Whether some two adjacent characters of `s` want a boundary.
pub open spec fn spec_needs_word_segmentation(lang: LangEntryView, s: Seq<char>) -> bool {
    exists|i: int| 0 <= i < s.len() - 1 && #[trigger] spec_boundary_between(lang, s[i], s[i + 1])
}

/// The segmented form of `s`, given the character held back (`prev`) and
/// whether whitespace was seen since it (`gap`).
pub open spec fn spec_segw_run(lang: LangEntryView, s: Seq<char>, prev: Option<char>, gap: bool) -> Seq<
    char,
>
    decreases s.len(),
{
    if s.len() == 0 {
        match prev {
            Some(p) => seq![p],
            None => Seq::empty(),
        }
    } else {
        let c = s[0];
        let rest = s.drop_first();
        if spec_is_any_whitespace(c) {
            spec_segw_run(lang, rest, prev, prev is Some)
        } else {
            match prev {
                None => spec_segw_run(lang, rest, Some(c), false),
                Some(p) => seq![p] + (if gap || spec_boundary_between(lang, p, c) {
                    seq![' ']
                } else {
                    Seq::empty()
                }) + spec_segw_run(lang, rest, Some(c), false),
            }
        }
    }
}

/// The segmented text: the non-whitespace characters in order, one space
/// between two of them where whitespace stood between them or the
/// language wants a boundary.
pub open spec fn spec_segment_word(lang: LangEntryView, s: Seq<char>) -> Seq<char> {
    spec_segw_run(lang, s, None, false)
}

/// Whether a space belongs between `prev` and `curr`.
pub fn needs_boundary_between(lang: &LangEntry, prev: char, curr: char) -> (r: bool)
    ensures
        r == spec_boundary_between(lang@, prev, curr),
{
    if is_any_whitespace(prev) || is_any_whitespace(curr) {
        return false;
    }
    let pc = classify(prev);
    let cc = classify(curr);
    if pc == cc {
        return false;
    }
    let p_script = pc == CharClass::Cjk || pc == CharClass::Hangul || pc == CharClass::SEAsian
        || pc == CharClass::NonCJKScript;
    let c_script = cc == CharClass::Cjk || cc == CharClass::Hangul || cc == CharClass::SEAsian
        || cc == CharClass::NonCJKScript;
    if pc == CharClass::Western && c_script {
        lang.segment_rules_contain(SegmentRule::WesternToScript)
    } else if p_script && cc == CharClass::Western {
        lang.segment_rules_contain(SegmentRule::ScriptToWestern)
    } else {
        true
    }
}

/// Whether some two adjacent characters of `text` want a boundary.
pub fn needs_segmentation(text: &str, lang: &LangEntry) -> (r: bool)
    ensures
        r == spec_needs_word_segmentation(lang@, text@),
{
    let chars = str_chars(text);
    let n = chars.len();
    let mut i: usize = 1;
    while i < n
        invariant
            1 <= i,
            n == chars@.len(),
            chars@ == text@,
            forall|j: int| 0 <= j < i - 1 && j < n - 1 ==> !#[trigger] spec_boundary_between(
                lang@,
                text@[j],
                text@[j + 1],
            ),
        decreases n - i,
    {
        if needs_boundary_between(lang, chars[i - 1], chars[i]) {
            assert(spec_boundary_between(lang@, text@[i - 1], text@[(i - 1) + 1]));
            return true;
        }
        i = i + 1;
    }
    false
}

/// The segmenting adapter over a character stream.
pub struct SegmentWordIterator<I> {
    input: I,
    lang: LangEntry,
    prev: Option<char>,
    gap: bool,
    pending_space: bool,
}

impl<I: CharStream> CharStream for SegmentWordIterator<I> {
    closed spec fn rest(&self) -> Seq<char> {
        (if self.pending_space {
            seq![' ']
        } else {
            Seq::empty()
        }) + spec_segw_run(self.lang@, self.input.rest(), self.prev, self.gap)
    }

    closed spec fn stream_inv(&self) -> bool {
        &&& self.input.stream_inv()
        &&& self.gap ==> self.prev is Some
    }

    fn next_char(&mut self) -> (r: Option<char>) {
        if self.pending_space {
            self.pending_space = false;
            assert(old(self).rest() =~= seq![' '] + self.rest());
            return Some(' ');
        }
        let ghost all = self.rest();
        assert(all =~= spec_segw_run(self.lang@, self.input.rest(), self.prev, self.gap));
        loop
            invariant
                self.stream_inv(),
                !self.pending_space,
                self.rest() == all,
                all == old(self).rest(),
                old(self).lang == self.lang,
            decreases self.input.rest().len(),
        {
            let ghost before = self.input.rest();
            assert(self.rest() =~= spec_segw_run(self.lang@, before, self.prev, self.gap));
            let curr = match self.input.next_char() {
                Some(c) => c,
                None => {
                    let out = self.prev;
                    self.prev = None;
                    self.gap = false;
                    match out {
                        Some(p) => {
                            assert(all =~= seq![p] + self.rest());
                        },
                        None => {
                            assert(self.rest() =~= Seq::<char>::empty());
                        },
                    }
                    return out;
                },
            };
            assert(before.drop_first() =~= self.input.rest());
            assert(before[0] == curr);
            if is_any_whitespace(curr) {
                self.gap = self.prev.is_some();
                assert(self.rest() =~= spec_segw_run(self.lang@, self.input.rest(), self.prev, self.gap));
            } else {
                match self.prev {
                    None => {
                        self.prev = Some(curr);
                        self.gap = false;
                        assert(self.rest() =~= spec_segw_run(self.lang@, self.input.rest(), self.prev, self.gap));
                    },
                    Some(p) => {
                        let space = self.gap || needs_boundary_between(&self.lang, p, curr);
                        self.prev = Some(curr);
                        self.gap = false;
                        self.pending_space = space;
                        assert(all =~= seq![p] + self.rest());
                        return Some(p);
                    },
                }
            }
        }
    }
}

impl<I: CharStream> SegmentWordIterator<I> {
    /// The segmenting adapter over `iter`, by the rules of `lang`.
    pub fn new(iter: I, lang: LangEntry) -> (r: Self)
        requires
            iter.stream_inv(),
        ensures
            r.stream_inv(),
            r.rest() == spec_segment_word(lang@, iter.rest()),
    {
        let ghost l = lang@;
        let r = SegmentWordIterator { input: iter, lang, prev: None, gap: false, pending_space: false };
        assert(r.rest() =~= spec_segment_word(l, iter.rest()));
        r
    }
}

/// The segmented text.
pub fn segment_allocating(text: &str, lang: &LangEntry) -> (r: String)
    ensures
        r@ == spec_segment_word(lang@, text@),
{
    let mut it = SegmentWordIterator::new(StrChars::new(text), lang.duplicate());
    collect_stream(&mut it)
}

/// What the stage makes of a text: nothing in a language that does not
/// segment, the segmented text otherwise.
pub open spec fn spec_segment_word_stage(lang: LangEntryView, s: Seq<char>) -> Seq<char> {
    if lang.needs_segmentation {
        spec_segment_word(lang, s)
    } else {
        s
    }
}

/// Whitespace already in the form the stage leaves: single spaces between
/// non-whitespace characters, none at either end.
pub open spec fn spec_canonical_spacing(s: Seq<char>) -> bool {
    &&& forall|i: int| 0 <= i < s.len() && spec_is_any_whitespace(#[trigger] s[i]) ==> s[i] == ' '
    &&& s.len() > 0 ==> !spec_is_any_whitespace(s[0]) && !spec_is_any_whitespace(s.last())
    &&& forall|i: int|
        0 <= i < s.len() - 1 && spec_is_any_whitespace(#[trigger] s[i]) ==> !spec_is_any_whitespace(
            s[i + 1],
        )
}

/// On text with canonical spacing and no boundary to insert, segmentation
/// changes nothing: the run from a held character `p` over the rest `s`
/// gives `p` followed by `s`.
proof fn lemma_segw_identity(lang: LangEntryView, p: char, s: Seq<char>)
    requires
        !spec_is_any_whitespace(p),
        spec_canonical_spacing(seq![p] + s),
        !spec_needs_word_segmentation(lang, seq![p] + s),
    ensures
        spec_segw_run(lang, s, Some(p), false) == seq![p] + s,
    decreases s.len(),
{
    let full = seq![p] + s;
    if s.len() == 0 {
        return;
    }
    let c = s[0];
    assert(full[1] == c);
    if spec_is_any_whitespace(c) {
        assert(c == ' ');
        assert(s.len() >= 2) by {
            if s.len() == 1 {
                assert(full.last() == c);
            }
        }
        let d = s[1];
        assert(full[2] == d);
        assert(!spec_is_any_whitespace(full[2])) by {
            assert(spec_is_any_whitespace(full[1]));
        }
        let t = s.drop_first().drop_first();
        let sub = seq![d] + t;
        assert(sub =~= full.skip(2));
        assert(spec_canonical_spacing(sub)) by {
            assert forall|i: int| 0 <= i < sub.len() && spec_is_any_whitespace(#[trigger] sub[i]) implies sub[i] == ' ' by {
                assert(sub[i] == full[i + 2]);
            }
            assert forall|i: int| 0 <= i < sub.len() - 1 && spec_is_any_whitespace(#[trigger] sub[i]) implies !spec_is_any_whitespace(sub[i + 1]) by {
                assert(sub[i] == full[i + 2]);
                assert(sub[i + 1] == full[i + 3]);
            }
            assert(sub.last() == full.last());
        }
        assert(!spec_needs_word_segmentation(lang, sub)) by {
            if spec_needs_word_segmentation(lang, sub) {
                let i = choose|i: int| 0 <= i < sub.len() - 1 && #[trigger] spec_boundary_between(lang, sub[i], sub[i + 1]);
                assert(sub[i] == full[i + 2] && sub[i + 1] == full[i + 3]);
                assert(spec_boundary_between(lang, full[i + 2], full[(i + 2) + 1]));
            }
        }
        lemma_segw_identity(lang, d, t);
        assert(s.drop_first()[0] == d);
        assert(s.drop_first().drop_first() =~= t);
        assert(spec_segw_run(lang, s.drop_first(), Some(p), true) == seq![p] + seq![' '] + spec_segw_run(lang, t, Some(d), false));
        assert(seq![p] + seq![' '] + (seq![d] + t) =~= seq![p] + s);
    } else {
        assert(!spec_boundary_between(lang, full[0int], full[0int + 1]));
        let t = s.drop_first();
        let sub = seq![c] + t;
        assert(sub =~= full.skip(1));
        assert(spec_canonical_spacing(sub)) by {
            assert forall|i: int| 0 <= i < sub.len() && spec_is_any_whitespace(#[trigger] sub[i]) implies sub[i] == ' ' by {
                assert(sub[i] == full[i + 1]);
            }
            assert forall|i: int| 0 <= i < sub.len() - 1 && spec_is_any_whitespace(#[trigger] sub[i]) implies !spec_is_any_whitespace(sub[i + 1]) by {
                assert(sub[i] == full[i + 1]);
                assert(sub[i + 1] == full[i + 2]);
            }
            assert(sub.last() == full.last());
        }
        assert(!spec_needs_word_segmentation(lang, sub)) by {
            if spec_needs_word_segmentation(lang, sub) {
                let i = choose|i: int| 0 <= i < sub.len() - 1 && #[trigger] spec_boundary_between(lang, sub[i], sub[i + 1]);
                assert(sub[i] == full[i + 1] && sub[i + 1] == full[i + 2]);
                assert(spec_boundary_between(lang, full[i + 1], full[(i + 1) + 1]));
            }
        }
        lemma_segw_identity(lang, c, t);
        assert(seq![p] + (seq![c] + t) =~= seq![p] + s);
    }
}

/// With canonical spacing and no boundary to insert, the stage changes
/// nothing.
pub proof fn lemma_segment_word_stage_identity(lang: LangEntryView, text: Seq<char>)
    requires
        spec_canonical_spacing(text),
        !(lang.needs_segmentation && spec_needs_word_segmentation(lang, text)),
    ensures
        spec_segment_word_stage(lang, text) == text,
{
    if lang.needs_segmentation && text.len() > 0 {
        let p = text[0];
        let s = text.drop_first();
        assert(text =~= seq![p] + s);
        lemma_segw_identity(lang, p, s);
    }
}

/// Text that segmentation leaves as it is: canonical spacing and no
/// boundary left to insert.
pub open spec fn spec_segmented(lang: LangEntryView, s: Seq<char>) -> bool {
    spec_canonical_spacing(s) && !spec_needs_word_segmentation(lang, s)
}

proof fn lemma_prepend_segmented(lang: LangEntryView, p: char, t: Seq<char>)
    requires
        !spec_is_any_whitespace(p),
        t.len() > 0,
        !spec_is_any_whitespace(t[0]),
        !spec_boundary_between(lang, p, t[0]),
        spec_segmented(lang, t),
    ensures
        spec_segmented(lang, seq![p] + t),
{
    let u = seq![p] + t;
    assert forall|i: int| 0 <= i < u.len() && spec_is_any_whitespace(#[trigger] u[i]) implies u[i] == ' ' by {
        assert(i > 0);
        assert(u[i] == t[i - 1]);
    }
    assert forall|i: int| 0 <= i < u.len() - 1 && spec_is_any_whitespace(#[trigger] u[i]) implies !spec_is_any_whitespace(u[i + 1]) by {
        assert(i > 0);
        assert(u[i] == t[i - 1]);
        assert(u[i + 1] == t[(i - 1) + 1]);
    }
    assert(u.last() == t.last());
    assert(!spec_needs_word_segmentation(lang, u)) by {
        if spec_needs_word_segmentation(lang, u) {
            let i = choose|i: int| 0 <= i < u.len() - 1 && #[trigger] spec_boundary_between(lang, u[i], u[i + 1]);
            if i > 0 {
                assert(u[i] == t[i - 1] && u[i + 1] == t[(i - 1) + 1]);
                assert(spec_boundary_between(lang, t[i - 1], t[(i - 1) + 1]));
            } else {
                assert(u[1] == t[0]);
            }
        }
    }
}

proof fn lemma_prepend_spaced_segmented(lang: LangEntryView, p: char, t: Seq<char>)
    requires
        !spec_is_any_whitespace(p),
        t.len() > 0,
        !spec_is_any_whitespace(t[0]),
        spec_segmented(lang, t),
    ensures
        spec_segmented(lang, seq![p] + (seq![' '] + t)),
{
    let m = seq![' '] + t;
    let u = seq![p] + m;
    assert(spec_is_any_whitespace(' ') && (' ' as u32) == 0x20);
    assert forall|i: int| 0 <= i < u.len() && spec_is_any_whitespace(#[trigger] u[i]) implies u[i] == ' ' by {
        if i >= 2 {
            assert(u[i] == t[i - 2]);
        }
    }
    assert forall|i: int| 0 <= i < u.len() - 1 && spec_is_any_whitespace(#[trigger] u[i]) implies !spec_is_any_whitespace(u[i + 1]) by {
        if i >= 2 {
            assert(u[i] == t[i - 2]);
            assert(u[i + 1] == t[(i - 2) + 1]);
        } else {
            assert(i == 1);
            assert(u[2] == t[0]);
        }
    }
    assert(u.last() == t.last());
    assert(!spec_needs_word_segmentation(lang, u)) by {
        if spec_needs_word_segmentation(lang, u) {
            let i = choose|i: int| 0 <= i < u.len() - 1 && #[trigger] spec_boundary_between(lang, u[i], u[i + 1]);
            if i >= 2 {
                assert(u[i] == t[i - 2] && u[i + 1] == t[(i - 2) + 1]);
                assert(spec_boundary_between(lang, t[i - 2], t[(i - 2) + 1]));
            } else if i == 1 {
                assert(u[1] == ' ');
            } else {
                assert(u[1] == ' ');
            }
        }
    }
}

proof fn lemma_run_held_segmented(lang: LangEntryView, s: Seq<char>, p: char, gap: bool)
    requires
        !spec_is_any_whitespace(p),
    ensures
        spec_segw_run(lang, s, Some(p), gap).len() > 0,
        spec_segw_run(lang, s, Some(p), gap)[0] == p,
        spec_segmented(lang, spec_segw_run(lang, s, Some(p), gap)),
    decreases s.len(),
{
    if s.len() == 0 {
        let u = seq![p];
        assert(spec_segw_run(lang, s, Some(p), gap) == u);
        assert(!spec_needs_word_segmentation(lang, u));
    } else {
        let c = s[0];
        let rest = s.drop_first();
        if spec_is_any_whitespace(c) {
            lemma_run_held_segmented(lang, rest, p, true);
        } else {
            lemma_run_held_segmented(lang, rest, c, false);
            let t = spec_segw_run(lang, rest, Some(c), false);
            if gap || spec_boundary_between(lang, p, c) {
                lemma_prepend_spaced_segmented(lang, p, t);
                assert(spec_segw_run(lang, s, Some(p), gap) =~= seq![p] + (seq![' '] + t));
            } else {
                lemma_prepend_segmented(lang, p, t);
                assert(spec_segw_run(lang, s, Some(p), gap) =~= seq![p] + t);
            }
        }
    }
}

proof fn lemma_run_segmented(lang: LangEntryView, s: Seq<char>)
    ensures
        spec_segmented(lang, spec_segw_run(lang, s, None, false)),
    decreases s.len(),
{
    if s.len() == 0 {
        assert(!spec_needs_word_segmentation(lang, Seq::<char>::empty()));
    } else if spec_is_any_whitespace(s[0]) {
        lemma_run_segmented(lang, s.drop_first());
    } else {
        lemma_run_held_segmented(lang, s.drop_first(), s[0], false);
    }
}

/// Segmenting twice inserts and collapses nothing more.
pub proof fn lemma_segment_word_idempotent(lang: LangEntryView, s: Seq<char>)
    ensures
        spec_segment_word_stage(lang, spec_segment_word_stage(lang, s)) == spec_segment_word_stage(
            lang,
            s,
        ),
{
    if lang.needs_segmentation {
        lemma_run_segmented(lang, s);
        lemma_segment_word_stage_identity(lang, spec_segment_word(lang, s));
    }
}

impl Stage for SegmentWord {
    open spec fn spec_needs_apply(&self, text: Seq<char>, ctx: &Context) -> bool {
        ctx.lang_entry@.needs_segmentation && spec_needs_word_segmentation(ctx.lang_entry@, text)
    }

    /// Only a text with a boundary to insert is segmented; then its
    /// whitespace is collapsed too.
    open spec fn spec_apply(&self, text: Seq<char>, ctx: &Context) -> Seq<char> {
        if self.spec_needs_apply(text, ctx) {
            spec_segment_word(ctx.lang_entry@, text)
        } else {
            text
        }
    }

    open spec fn spec_skip_sound(&self, text: Seq<char>, ctx: &Context) -> bool {
        true
    }

    fn name(&self) -> (r: &'static str)
        ensures
            r@ == "segment_word"@,
    {
        "segment_word"
    }

    fn needs_apply(&self, text: &str, ctx: &Context) -> (r: Result<bool, StageError>) {
        Ok(ctx.lang_entry.needs_segmentation() && needs_segmentation(text, &ctx.lang_entry))
    }

    /// A text without a boundary to insert comes back as it came.
    fn apply<'a>(&self, text: Cow<'a, str>, ctx: &Context) -> (r: Result<Cow<'a, str>, StageError>)
        ensures
            !self.spec_needs_apply(text@, ctx) ==> r == Ok::<Cow<'a, str>, StageError>(text),
    {
        if !ctx.lang_entry.needs_segmentation() || !needs_segmentation(cow_str(&text), &ctx.lang_entry) {
            return Ok(text);
        }
        Ok(Cow::Owned(segment_allocating(cow_str(&text), &ctx.lang_entry)))
    }

    open spec fn spec_safe_skip(&self) -> bool {
        false
    }

    fn safe_skip_approximation(&self) -> (r: bool) {
        false
    }

    proof fn lemma_apply_when_not_needed(&self, text: Seq<char>, ctx: &Context) {
    }
}

impl CharMapper for SegmentWord {
    open spec fn spec_map(&self, c: char, ctx: &Context) -> Option<char> {
        Some(c)
    }

    open spec fn spec_bind(&self, text: Seq<char>, ctx: &Context) -> Seq<char> {
        spec_segment_word(ctx.lang_entry@, text)
    }

    fn map(&self, c: char, ctx: &Context) -> (r: Option<char>) {
        Some(c)
    }

    fn bind(&self, text: &str, ctx: &Context) -> (r: String) {
        segment_allocating(text, &ctx.lang_entry)
    }
}

impl SegmentWord {
    /// The stage as a character map, in a language that segments.
    pub fn as_char_mapper(&self, ctx: &Context) -> (r: Option<&SegmentWord>)
        ensures
            r == (if ctx.lang_entry@.needs_segmentation {
                Some(self)
            } else {
                None::<&SegmentWord>
            }),
    {
        if ctx.lang_entry.needs_segmentation() {
            Some(self)
        } else {
            None
        }
    }
}

impl StaticFusableStage for SegmentWord {

    open spec fn spec_sound_everywhere(&self, ctx: &Context) -> bool {
        true
    }

    proof fn lemma_sound_everywhere(&self, text: Seq<char>, ctx: &Context) {
    }
    open spec fn spec_supports_static_fusion(&self) -> bool {
        false
    }

    open spec fn spec_fused(&self, text: Seq<char>, ctx: &Context) -> Seq<char> {
        text
    }

    open spec fn spec_fused_sound(&self, text: Seq<char>, ctx: &Context) -> bool {
        true
    }

    fn supports_static_fusion(&self) -> (r: bool) {
        false
    }

    /// Not fusable: the characters pass through.
    fn fused_apply(&self, text: &str, ctx: &Context) -> (r: String) {
        text.to_owned()
    }

    proof fn lemma_fused_is_apply(&self, text: Seq<char>, ctx: &Context) {
    }
}

} // verus!
