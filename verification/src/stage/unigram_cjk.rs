//! Unigram segmentation of CJK text in any language: a space between every
//! two adjacent Han or kana characters.
use vstd::prelude::*;
use std::borrow::Cow;
use crate::context::Context;
use crate::process::cow_str;
use crate::stage::{CharMapper, CharStream, Stage, StageError, StaticFusableStage, StrChars, collect_stream};
use crate::stage::cjk_unigram::{has_cjk, lemma_unigram_without_cjk, spec_has_cjk, spec_unigram};

verus! {

/// Inserts a space between adjacent CJK characters, whatever the language.
#[derive(Debug, Default, Clone, Copy)]
pub struct UnigramCJK;

/// The segmenting adapter over a character stream.
pub struct UnigramCJKIterator<I> {
    inner: crate::stage::cjk_unigram::UnigramCJKIterator<I>,
}

impl<I: CharStream> CharStream for UnigramCJKIterator<I> {
    closed spec fn rest(&self) -> Seq<char> {
        self.inner.rest()
    }

    closed spec fn stream_inv(&self) -> bool {
        self.inner.stream_inv()
    }

    fn next_char(&mut self) -> (r: Option<char>) {
        self.inner.next_char()
    }
}

impl<I: CharStream> UnigramCJKIterator<I> {
    /// The segmenting adapter over `iter`.
    pub fn new(iter: I) -> (r: Self)
        requires
            iter.stream_inv(),
        ensures
            r.stream_inv(),
            r.rest() == spec_unigram(iter.rest()),
    {
        UnigramCJKIterator { inner: crate::stage::cjk_unigram::UnigramCJKIterator::new(iter) }
    }
}

/// The segmented text.
pub fn segment_cjk_unigram(text: &str) -> (r: String)
    ensures
        r@ == spec_unigram(text@),
{
    let mut it = UnigramCJKIterator::new(StrChars::new(text));
    collect_stream(&mut it)
}

impl Stage for UnigramCJK {
    open spec fn spec_needs_apply(&self, text: Seq<char>, ctx: &Context) -> bool {
        spec_has_cjk(text)
    }

    open spec fn spec_apply(&self, text: Seq<char>, ctx: &Context) -> Seq<char> {
        spec_unigram(text)
    }

    open spec fn spec_skip_sound(&self, text: Seq<char>, ctx: &Context) -> bool {
        true
    }

    fn name(&self) -> (r: &'static str)
        ensures
            r@ == "unigram_cjk"@,
    {
        "unigram_cjk"
    }

    fn needs_apply(&self, text: &str, ctx: &Context) -> (r: Result<bool, StageError>) {
        Ok(has_cjk(text))
    }

    fn apply<'a>(&self, text: Cow<'a, str>, ctx: &Context) -> (r: Result<Cow<'a, str>, StageError>) {
        Ok(Cow::Owned(segment_cjk_unigram(cow_str(&text))))
    }

    open spec fn spec_safe_skip(&self) -> bool {
        false
    }

    fn safe_skip_approximation(&self) -> (r: bool) {
        false
    }

    proof fn lemma_apply_when_not_needed(&self, text: Seq<char>, ctx: &Context) {
        if !self.spec_needs_apply(text, ctx) && self.spec_skip_sound(text, ctx) {
            lemma_unigram_without_cjk(false, text);
        }
    }
}

impl CharMapper for UnigramCJK {
    open spec fn spec_map(&self, c: char, ctx: &Context) -> Option<char> {
        Some(c)
    }

    open spec fn spec_bind(&self, text: Seq<char>, ctx: &Context) -> Seq<char> {
        spec_unigram(text)
    }

    fn map(&self, c: char, ctx: &Context) -> (r: Option<char>) {
        Some(c)
    }

    fn bind(&self, text: &str, ctx: &Context) -> (r: String) {
        segment_cjk_unigram(text)
    }
}

impl UnigramCJK {
    /// The stage as a character map: always available.
    pub fn as_char_mapper(&self, ctx: &Context) -> (r: Option<&UnigramCJK>)
        ensures
            r == Some(self),
    {
        Some(self)
    }
}

impl StaticFusableStage for UnigramCJK {

    open spec fn spec_sound_everywhere(&self, ctx: &Context) -> bool {
        true
    }

    proof fn lemma_sound_everywhere(&self, text: Seq<char>, ctx: &Context) {
    }
    open spec fn spec_supports_static_fusion(&self) -> bool {
        true
    }

    open spec fn spec_fused(&self, text: Seq<char>, ctx: &Context) -> Seq<char> {
        spec_unigram(text)
    }

    open spec fn spec_fused_sound(&self, text: Seq<char>, ctx: &Context) -> bool {
        true
    }

    fn supports_static_fusion(&self) -> (r: bool) {
        true
    }

    fn fused_apply(&self, text: &str, ctx: &Context) -> (r: String) {
        segment_cjk_unigram(text)
    }

    proof fn lemma_fused_is_apply(&self, text: Seq<char>, ctx: &Context) {
    }
}

} // verus!
