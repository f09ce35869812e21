//! The stage contract: what every normalization stage offers, and the
//! character streams its fused adapters read from.
use vstd::prelude::*;
use std::borrow::Cow;
use crate::context::Context;
use crate::text::{push_char, str_chars};

pub mod normalize_whitespace;
pub mod segment_words;
pub mod strip_html;
pub mod strip_markdown;
pub mod lower_case;
pub mod case_fold;
pub mod strip_control_chars;
pub mod strip_format_controls;
pub mod remove_diacritics;
pub mod transliterate;
pub mod unify_width;
pub mod normalize_punctuation;
pub mod normalization;
pub mod replace_fullwidth;
pub mod fold_case;
pub mod cjk_unigram;
pub mod unigram_cjk;
pub mod segment_word;
pub mod sw;
pub mod trim;
pub mod trim_whitespace;
pub mod remove_control_chars;
pub mod validation;
pub mod utf8_validate;

verus! {

/// Why a stage could not produce its output.
#[derive(Debug)]
pub enum StageError {
    /// The stage failed: stage name, then the reason.
    Failed(&'static str, String),
    /// The input was rejected by a validating stage: stage name, then the reason.
    Validation(&'static str, String),
}

impl StageError {
    /// The human-readable message of the error.
    pub fn message(&self) -> (r: String)
        ensures
            r@ == self.spec_message(),
    {
        let mut out = String::new();
        match self {
            StageError::Failed(stage, reason) => {
                out.append("Normalization failed at stage `");
                out.append(stage);
                out.append("`: ");
                out.append(reason.as_str());
            },
            StageError::Validation(stage, reason) => {
                out.append("Normalization validation failed at stage `");
                out.append(stage);
                out.append("`: ");
                out.append(reason.as_str());
            },
        }
        out
    }

    pub open spec fn spec_message(&self) -> Seq<char> {
        match self {
            StageError::Failed(stage, reason) => "Normalization failed at stage `"@ + stage@
                + "`: "@ + reason@,
            StageError::Validation(stage, reason) => "Normalization validation failed at stage `"@
                + stage@ + "`: "@ + reason@,
        }
    }
}

/// A normalization stage.
///
/// `needs_apply` is a cheap check; when it answers `false` the stage is
/// skipped and the text passes through untouched. `apply` is only called
/// when it answered `true`, and never fails on
/// valid text.
pub trait Stage {
    /// Whether the stage would do anything to `text`.
    spec fn spec_needs_apply(&self, text: Seq<char>, ctx: &Context) -> bool;

    /// What the stage makes of `text`.
    spec fn spec_apply(&self, text: Seq<char>, ctx: &Context) -> Seq<char>;

    /// Human-readable name, used in error messages.
    fn name(&self) -> (r: &'static str);

    fn needs_apply(&self, text: &str, ctx: &Context) -> (r: Result<bool, StageError>)
        ensures
            r == Ok::<bool, StageError>(self.spec_needs_apply(text@, ctx)),
    ;

    fn apply<'a>(&self, text: Cow<'a, str>, ctx: &Context) -> (r: Result<Cow<'a, str>, StageError>)
        ensures
            r matches Ok(out) && out@ == self.spec_apply(text@, ctx),
    ;

    /// Whether the stage claims that its quick check on the original input
    /// may stand for its need after earlier stages have run.
    spec fn spec_safe_skip(&self) -> bool;

    /// Whether `needs_apply` on the original input may stand for the
    /// stage's need after earlier stages have run.
    fn safe_skip_approximation(&self) -> (r: bool)
        ensures
            r == self.spec_safe_skip(),
    ;

    /// The texts on which a `false` from `needs_apply` is sound. It is every
    /// text for all stages but those whose quick check has a known blind spot.
    spec fn spec_skip_sound(&self, text: Seq<char>, ctx: &Context) -> bool;

    /// When `needs_apply` says no on a text where the quick check is sound,
    /// applying the stage changes nothing.
    proof fn lemma_apply_when_not_needed(&self, text: Seq<char>, ctx: &Context) where Self: Sized
        ensures
            !self.spec_needs_apply(text, ctx) && self.spec_skip_sound(text, ctx) ==> self.spec_apply(
                text,
                ctx,
            ) == text,
    ;
}

/// A source of characters, read one at a time. `rest` is everything the
/// stream will still yield.
pub trait CharStream {
    spec fn rest(&self) -> Seq<char>;

    spec fn stream_inv(&self) -> bool;

    fn next_char(&mut self) -> (r: Option<char>)
        requires
            old(self).stream_inv(),
        ensures
            final(self).stream_inv(),
            old(self).rest().len() == 0 ==> r is None && final(self).rest().len() == 0,
            old(self).rest().len() > 0 ==> r == Some(old(self).rest()[0]) && final(self).rest()
                == old(self).rest().drop_first(),
    ;
}

/// A stage that can run as an adapter over a character stream, so that
/// several stages can be chained without building the text in between.
pub trait StaticFusableStage: Stage {
    spec fn spec_supports_static_fusion(&self) -> bool;

    /// What the stage's adapter yields over the characters of `text`.
    spec fn spec_fused(&self, text: Seq<char>, ctx: &Context) -> Seq<char>;

    /// The texts on which the adapter and `apply` agree.
    spec fn spec_fused_sound(&self, text: Seq<char>, ctx: &Context) -> bool;

    fn supports_static_fusion(&self) -> (r: bool)
        ensures
            r == self.spec_supports_static_fusion(),
    ;

    /// Runs the stage's adapter over the characters of `text`. A stage
    /// that cannot be fused passes the characters through.
    fn fused_apply(&self, text: &str, ctx: &Context) -> (r: String)
        ensures
            r@ == (if self.spec_supports_static_fusion() {
                self.spec_fused(text@, ctx)
            } else {
                text@
            }),
    ;

    /// Whether, under the rules of `ctx`, the adapter agrees with `apply`
    /// and the quick check is sound on every text.
    spec fn spec_sound_everywhere(&self, ctx: &Context) -> bool;

    proof fn lemma_sound_everywhere(&self, text: Seq<char>, ctx: &Context)
        requires
            self.spec_sound_everywhere(ctx),
        ensures
            self.spec_skip_sound(text, ctx),
            self.spec_fused_sound(text, ctx),
    ;

    /// The adapter computes what `apply` computes.
    proof fn lemma_fused_is_apply(&self, text: Seq<char>, ctx: &Context)
        requires
            self.spec_fused_sound(text, ctx),
        ensures
            self.spec_supports_static_fusion() ==> self.spec_fused(text, ctx) == self.spec_apply(
                text,
                ctx,
            ),
    ;
}

/// A stage that maps each character on its own, so that it can run as a
/// plain character map over a text.
pub trait CharMapper {
    /// What `map` gives for `c`.
    spec fn spec_map(&self, c: char, ctx: &Context) -> Option<char>;

    /// What `bind` yields over `text`.
    spec fn spec_bind(&self, text: Seq<char>, ctx: &Context) -> Seq<char>;

    fn map(&self, c: char, ctx: &Context) -> (r: Option<char>)
        ensures
            r == self.spec_map(c, ctx),
    ;

    /// The mapped characters of `text`.
    fn bind(&self, text: &str, ctx: &Context) -> (r: String)
        ensures
            r@ == self.spec_bind(text@, ctx),
    ;
}

/// The characters of a string, as a stream.
pub struct StrChars {
    chars: Vec<char>,
    pos: usize,
}

impl StrChars {
    pub fn new(text: &str) -> (r: StrChars)
        ensures
            r.stream_inv(),
            r.rest() == text@,
    {
        let chars = str_chars(text);
        let r = StrChars { chars, pos: 0 };
        assert(r.chars@.subrange(0, r.chars@.len() as int) =~= text@);
        r
    }
}

impl CharStream for StrChars {
    closed spec fn rest(&self) -> Seq<char> {
        self.chars@.subrange(self.pos as int, self.chars@.len() as int)
    }

    closed spec fn stream_inv(&self) -> bool {
        self.pos <= self.chars@.len()
    }

    fn next_char(&mut self) -> (r: Option<char>) {
        if self.pos < self.chars.len() {
            let c = self.chars[self.pos];
            self.pos = self.pos + 1;
            assert(self.chars@.subrange(self.pos as int, self.chars@.len() as int) =~= old(
                self,
            ).chars@.subrange(old(self).pos as int, self.chars@.len() as int).drop_first());
            Some(c)
        } else {
            None
        }
    }
}

/// Drains a stream into a string.
pub fn collect_stream<I: CharStream>(it: &mut I) -> (r: String)
    requires
        old(it).stream_inv(),
    ensures
        r@ == old(it).rest(),
{
    let mut out = String::new();
    let ghost all = it.rest();
    loop
        invariant
            it.stream_inv(),
            all == out@ + it.rest(),
            all == old(it).rest(),
        decreases it.rest().len(),
    {
        let ghost before = it.rest();
        match it.next_char() {
            Some(c) => {
                push_char(&mut out, c);
                assert(before =~= seq![c] + before.drop_first());
            },
            None => {
                assert(it.rest() =~= Seq::<char>::empty());
                assert(all =~= out@);
                return out;
            },
        }
    }
}

} // verus!
