//! Unigram segmentation of CJK text: a space between every two adjacent
//! Han or kana characters, for languages that ask for it.
use vstd::prelude::*;
use std::borrow::Cow;
use crate::context::Context;
use crate::process::cow_str;
use crate::stage::{CharMapper, CharStream, Stage, StageError, StaticFusableStage, StrChars, collect_stream};
use crate::unicode::{is_cjk_han_or_kana, spec_is_cjk_han_or_kana};

verus! {

/// Inserts a space between adjacent CJK characters where the language
/// asks for unigram segmentation.
#[derive(Debug, Default, Clone, Copy)]
pub struct CjkUnigram;

/// The segmented form of `s`, after a character that was (`prev_cjk`) or
/// was not CJK.
pub open spec fn spec_unigram_from(prev_cjk: bool, s: Seq<char>) -> Seq<char>
    decreases s.len(),
{
    if s.len() == 0 {
        Seq::empty()
    } else {
        let c = s[0];
        let head = if prev_cjk && spec_is_cjk_han_or_kana(c) {
            seq![' ', c]
        } else {
            seq![c]
        };
        head + spec_unigram_from(spec_is_cjk_han_or_kana(c), s.drop_first())
    }
}

/// The segmented text: a space between every two adjacent CJK characters.
pub open spec fn spec_unigram(s: Seq<char>) -> Seq<char> {
    spec_unigram_from(false, s)
}

/// Whether `s` holds a CJK character.
pub open spec fn spec_has_cjk(s: Seq<char>) -> bool {
    exists|i: int| 0 <= i < s.len() && spec_is_cjk_han_or_kana(#[trigger] s[i])
}

/// Text without CJK characters is left alone.
pub proof fn lemma_unigram_without_cjk(prev_cjk: bool, s: Seq<char>)
    requires
        !spec_has_cjk(s),
    ensures
        spec_unigram_from(prev_cjk, s) == s,
    decreases s.len(),
{
    if s.len() > 0 {
        let t = s.drop_first();
        assert(!spec_is_cjk_han_or_kana(s[0]));
        assert(!spec_has_cjk(t)) by {
            if spec_has_cjk(t) {
                let i = choose|i: int| 0 <= i < t.len() && spec_is_cjk_han_or_kana(#[trigger] t[i]);
                assert(s[i + 1] == t[i]);
            }
        }
        lemma_unigram_without_cjk(false, t);
        assert(seq![s[0]] + t =~= s);
    }
}

/// Whether `s` is already segmented, after a character that was
/// (`prev_cjk`) or was not CJK: no CJK character follows a CJK character.
pub open spec fn spec_unigram_done(prev_cjk: bool, s: Seq<char>) -> bool
    decreases s.len(),
{
    if s.len() == 0 {
        true
    } else {
        !(prev_cjk && spec_is_cjk_han_or_kana(s[0])) && spec_unigram_done(
            spec_is_cjk_han_or_kana(s[0]),
            s.drop_first(),
        )
    }
}

proof fn lemma_unigram_done_identity(prev_cjk: bool, s: Seq<char>)
    requires
        spec_unigram_done(prev_cjk, s),
    ensures
        spec_unigram_from(prev_cjk, s) == s,
    decreases s.len(),
{
    if s.len() > 0 {
        lemma_unigram_done_identity(spec_is_cjk_han_or_kana(s[0]), s.drop_first());
        assert(seq![s[0]] + s.drop_first() =~= s);
    }
}

proof fn lemma_unigram_output_done(prev_cjk: bool, s: Seq<char>)
    ensures
        spec_unigram_done(prev_cjk, spec_unigram_from(prev_cjk, s)),
    decreases s.len(),
{
    if s.len() > 0 {
        let c = s[0];
        let t = spec_unigram_from(spec_is_cjk_han_or_kana(c), s.drop_first());
        lemma_unigram_output_done(spec_is_cjk_han_or_kana(c), s.drop_first());
        if prev_cjk && spec_is_cjk_han_or_kana(c) {
            let out = seq![' ', c] + t;
            assert(spec_unigram_from(prev_cjk, s) == out);
            let mid = seq![c] + t;
            assert(out.drop_first() =~= mid);
            assert(mid.drop_first() =~= t);
            assert(mid[0] == c);
            assert(spec_unigram_done(false, mid));
            assert(out[0] == ' ');
            assert(!spec_is_cjk_han_or_kana(' '));
        } else {
            let out = seq![c] + t;
            assert(spec_unigram_from(prev_cjk, s) == out);
            assert(out.drop_first() =~= t);
            assert(out[0] == c);
        }
    }
}

/// Segmenting twice inserts nothing more.
pub proof fn lemma_unigram_idempotent(s: Seq<char>)
    ensures
        spec_unigram(spec_unigram(s)) == spec_unigram(s),
{
    lemma_unigram_output_done(false, s);
    lemma_unigram_done_identity(false, spec_unigram(s));
}

/// The segmenting adapter over a character stream.
pub struct UnigramCJKIterator<I> {
    input: I,
    prev_was_cjk: bool,
    pending: Option<char>,
}

impl<I: CharStream> CharStream for UnigramCJKIterator<I> {
    closed spec fn rest(&self) -> Seq<char> {
        match self.pending {
            Some(ch) => seq![ch] + spec_unigram_from(spec_is_cjk_han_or_kana(ch), self.input.rest()),
            None => spec_unigram_from(self.prev_was_cjk, self.input.rest()),
        }
    }

    closed spec fn stream_inv(&self) -> bool {
        self.input.stream_inv()
    }

    fn next_char(&mut self) -> (r: Option<char>) {
        if let Some(ch) = self.pending {
            self.pending = None;
            self.prev_was_cjk = is_cjk_han_or_kana(ch);
            assert(old(self).rest().drop_first() =~= self.rest());
            return Some(ch);
        }
        let ghost before = self.input.rest();
        let curr = match self.input.next_char() {
            Some(c) => c,
            None => {
                return None;
            },
        };
        assert(before.drop_first() =~= self.input.rest());
        let curr_is_cjk = is_cjk_han_or_kana(curr);
        if self.prev_was_cjk && curr_is_cjk {
            self.pending = Some(curr);
            self.prev_was_cjk = false;
            assert(old(self).rest() =~= seq![' '] + self.rest());
            return Some(' ');
        }
        self.prev_was_cjk = curr_is_cjk;
        assert(old(self).rest() =~= seq![curr] + self.rest());
        Some(curr)
    }
}

impl<I: CharStream> UnigramCJKIterator<I> {
    /// The segmenting adapter over `iter`.
    pub fn new(iter: I) -> (r: Self)
        requires
            iter.stream_inv(),
        ensures
            r.stream_inv(),
            r.rest() == spec_unigram(iter.rest()),
    {
        UnigramCJKIterator { input: iter, prev_was_cjk: false, pending: None }
    }
}

/// The segmented text.
pub fn segment_cjk_unigram(text: &str) -> (r: String)
    ensures
        r@ == spec_unigram(text@),
{
    let mut it = UnigramCJKIterator::new(StrChars::new(text));
    collect_stream(&mut it)
}

/// Whether `text` holds a CJK character.
pub(crate) fn has_cjk(text: &str) -> (r: bool)
    ensures
        r == spec_has_cjk(text@),
{
    let chars = crate::text::str_chars(text);
    let n = chars.len();
    for i in 0..n
        invariant
            n == chars@.len(),
            chars@ == text@,
            forall|j: int| 0 <= j < i ==> !spec_is_cjk_han_or_kana(#[trigger] text@[j]),
    {
        if is_cjk_han_or_kana(chars[i]) {
            assert(text@[i as int] == chars@[i as int]);
            return true;
        }
    }
    false
}

impl Stage for CjkUnigram {
    open spec fn spec_needs_apply(&self, text: Seq<char>, ctx: &Context) -> bool {
        ctx.lang_entry@.unigram_cjk && spec_has_cjk(text)
    }

    /// Languages that do not ask for unigrams are left alone.
    open spec fn spec_apply(&self, text: Seq<char>, ctx: &Context) -> Seq<char> {
        if ctx.lang_entry@.unigram_cjk {
            spec_unigram(text)
        } else {
            text
        }
    }

    open spec fn spec_skip_sound(&self, text: Seq<char>, ctx: &Context) -> bool {
        true
    }

    fn name(&self) -> (r: &'static str)
        ensures
            r@ == "unigram_cjk"@,
    {
        "unigram_cjk"
    }

    fn needs_apply(&self, text: &str, ctx: &Context) -> (r: Result<bool, StageError>) {
        Ok(ctx.lang_entry.needs_unigram_cjk() && has_cjk(text))
    }

    fn apply<'a>(&self, text: Cow<'a, str>, ctx: &Context) -> (r: Result<Cow<'a, str>, StageError>) {
        if !ctx.lang_entry.needs_unigram_cjk() {
            return Ok(text);
        }
        Ok(Cow::Owned(segment_cjk_unigram(cow_str(&text))))
    }

    open spec fn spec_safe_skip(&self) -> bool {
        false
    }

    fn safe_skip_approximation(&self) -> (r: bool) {
        false
    }

    proof fn lemma_apply_when_not_needed(&self, text: Seq<char>, ctx: &Context) {
        if !self.spec_needs_apply(text, ctx) && ctx.lang_entry@.unigram_cjk {
            lemma_unigram_without_cjk(false, text);
        }
    }
}

impl CharMapper for CjkUnigram {
    open spec fn spec_map(&self, c: char, ctx: &Context) -> Option<char> {
        Some(c)
    }

    open spec fn spec_bind(&self, text: Seq<char>, ctx: &Context) -> Seq<char> {
        spec_unigram(text)
    }

    fn map(&self, c: char, ctx: &Context) -> (r: Option<char>) {
        Some(c)
    }

    fn bind(&self, text: &str, ctx: &Context) -> (r: String) {
        segment_cjk_unigram(text)
    }
}

impl CjkUnigram {
    /// The stage as a character map: always available.
    pub fn as_char_mapper(&self, ctx: &Context) -> (r: Option<&CjkUnigram>)
        ensures
            r == Some(self),
    {
        Some(self)
    }
}

impl StaticFusableStage for CjkUnigram {

    open spec fn spec_sound_everywhere(&self, ctx: &Context) -> bool {
        true
    }

    proof fn lemma_sound_everywhere(&self, text: Seq<char>, ctx: &Context) {
    }
    open spec fn spec_supports_static_fusion(&self) -> bool {
        true
    }

    open spec fn spec_fused(&self, text: Seq<char>, ctx: &Context) -> Seq<char> {
        if ctx.lang_entry@.unigram_cjk {
            spec_unigram(text)
        } else {
            text
        }
    }

    open spec fn spec_fused_sound(&self, text: Seq<char>, ctx: &Context) -> bool {
        true
    }

    fn supports_static_fusion(&self) -> (r: bool) {
        true
    }

    fn fused_apply(&self, text: &str, ctx: &Context) -> (r: String) {
        if !ctx.lang_entry.needs_unigram_cjk() {
            let mut all = StrChars::new(text);
            return collect_stream(&mut all);
        }
        segment_cjk_unigram(text)
    }

    proof fn lemma_fused_is_apply(&self, text: Seq<char>, ctx: &Context) {
    }
}

} // verus!
