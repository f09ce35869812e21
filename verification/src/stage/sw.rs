//! Word segmentation by the built-in rules of the context's language: as
//! the segmenting stage of `segment_word`, with the rules looked up from
//! the language itself rather than from the context's possibly modified
//! entry.
use vstd::prelude::*;
use std::borrow::Cow;
use crate::context::Context;
use crate::lang::Lang;
use crate::lang::data::{lang_entry, spec_lang_entry};
use crate::process::cow_str;
use crate::stage::{CharMapper, CharStream, Stage, StageError, StaticFusableStage, StrChars, collect_stream};
use crate::stage::segment_word::{
    lemma_segment_word_stage_identity,
    spec_canonical_spacing, spec_needs_word_segmentation, spec_segment_word,
    spec_segment_word_stage,
};
use crate::text::str_eq;

verus! {

/// Inserts spaces between scripts and collapses whitespace, by the
/// built-in rules of the context's language.
#[derive(Debug, Default, Clone, Copy)]
pub struct SegmentWord;

/// Whether some two adjacent characters of `text` want a boundary in `lang`.
pub fn needs_segmentation(text: &str, lang: Lang) -> (r: bool)
    ensures
        r == spec_needs_word_segmentation(spec_lang_entry(lang), text@),
{
    let entry = lang_entry(lang);
    crate::stage::segment_word::needs_segmentation(text, &entry)
}

/// The segmented text, by the rules of `lang`.
pub fn segment_allocating(text: &str, lang: Lang) -> (r: String)
    ensures
        r@ == spec_segment_word(spec_lang_entry(lang), text@),
{
    let entry = lang_entry(lang);
    crate::stage::segment_word::segment_allocating(text, &entry)
}

/// The segmenting adapter over a character stream.
pub struct SegmentWordIterator<I> {
    inner: crate::stage::segment_word::SegmentWordIterator<I>,
}

impl<I: CharStream> CharStream for SegmentWordIterator<I> {
    closed spec fn rest(&self) -> Seq<char> {
        self.inner.rest()
    }

    closed spec fn stream_inv(&self) -> bool {
        self.inner.stream_inv()
    }

    fn next_char(&mut self) -> (r: Option<char>) {
        self.inner.next_char()
    }
}

impl<I: CharStream> SegmentWordIterator<I> {
    /// The segmenting adapter over `iter`, by the rules of `lang`.
    pub fn new(iter: I, lang: Lang) -> (r: Self)
        requires
            iter.stream_inv(),
        ensures
            r.stream_inv(),
            r.rest() == spec_segment_word(spec_lang_entry(lang), iter.rest()),
    {
        SegmentWordIterator {
            inner: crate::stage::segment_word::SegmentWordIterator::new(iter, lang_entry(lang)),
        }
    }
}

impl Stage for SegmentWord {
    open spec fn spec_needs_apply(&self, text: Seq<char>, ctx: &Context) -> bool {
        spec_lang_entry(ctx.lang).needs_segmentation && spec_needs_word_segmentation(
            spec_lang_entry(ctx.lang),
            text,
        )
    }

    open spec fn spec_apply(&self, text: Seq<char>, ctx: &Context) -> Seq<char> {
        spec_segment_word_stage(spec_lang_entry(ctx.lang), text)
    }

    /// Where the language segments, the quick check looks for boundaries
    /// only; whitespace that the stage would collapse goes unnoticed.
    open spec fn spec_skip_sound(&self, text: Seq<char>, ctx: &Context) -> bool {
        spec_lang_entry(ctx.lang).needs_segmentation ==> spec_canonical_spacing(text)
    }

    fn name(&self) -> (r: &'static str)
        ensures
            r@ == "segment_word"@,
    {
        "segment_word"
    }

    fn needs_apply(&self, text: &str, ctx: &Context) -> (r: Result<bool, StageError>) {
        let entry = lang_entry(ctx.lang);
        Ok(entry.needs_segmentation() && crate::stage::segment_word::needs_segmentation(text, &entry))
    }

    /// A text that segmentation leaves as it is comes back as it came.
    fn apply<'a>(&self, text: Cow<'a, str>, ctx: &Context) -> (r: Result<Cow<'a, str>, StageError>)
        ensures
            spec_segment_word_stage(spec_lang_entry(ctx.lang), text@) == text@ ==> r == Ok::<
                Cow<'a, str>,
                StageError,
            >(text),
    {
        let entry = lang_entry(ctx.lang);
        if !entry.needs_segmentation() {
            return Ok(text);
        }
        let out = crate::stage::segment_word::segment_allocating(cow_str(&text), &entry);
        if str_eq(out.as_str(), cow_str(&text)) {
            return Ok(text);
        }
        Ok(Cow::Owned(out))
    }

    open spec fn spec_safe_skip(&self) -> bool {
        false
    }

    fn safe_skip_approximation(&self) -> (r: bool) {
        false
    }

    proof fn lemma_apply_when_not_needed(&self, text: Seq<char>, ctx: &Context) {
        if !self.spec_needs_apply(text, ctx) && self.spec_skip_sound(text, ctx)
            && spec_lang_entry(ctx.lang).needs_segmentation {
            lemma_segment_word_stage_identity(spec_lang_entry(ctx.lang), text);
        }
    }
}

impl CharMapper for SegmentWord {
    open spec fn spec_map(&self, c: char, ctx: &Context) -> Option<char> {
        Some(c)
    }

    open spec fn spec_bind(&self, text: Seq<char>, ctx: &Context) -> Seq<char> {
        spec_segment_word(spec_lang_entry(ctx.lang), text)
    }

    fn map(&self, c: char, ctx: &Context) -> (r: Option<char>) {
        Some(c)
    }

    fn bind(&self, text: &str, ctx: &Context) -> (r: String) {
        segment_allocating(text, ctx.lang)
    }
}

impl StaticFusableStage for SegmentWord {

    /// Sound everywhere where the language does not segment at all.
    open spec fn spec_sound_everywhere(&self, ctx: &Context) -> bool {
        !spec_lang_entry(ctx.lang).needs_segmentation
    }

    proof fn lemma_sound_everywhere(&self, text: Seq<char>, ctx: &Context) {
    }
    open spec fn spec_supports_static_fusion(&self) -> bool {
        false
    }

    open spec fn spec_fused(&self, text: Seq<char>, ctx: &Context) -> Seq<char> {
        text
    }

    open spec fn spec_fused_sound(&self, text: Seq<char>, ctx: &Context) -> bool {
        true
    }

    fn supports_static_fusion(&self) -> (r: bool) {
        false
    }

    /// Not fusable: the characters pass through.
    fn fused_apply(&self, text: &str, ctx: &Context) -> (r: String) {
        text.to_owned()
    }

    proof fn lemma_fused_is_apply(&self, text: Seq<char>, ctx: &Context) {
    }
}

} // verus!
