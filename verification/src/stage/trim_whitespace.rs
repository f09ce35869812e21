//! Trimming of whitespace at both ends, as a stage that also runs as a
//! character map.
use vstd::prelude::*;
use std::borrow::Cow;
use crate::context::Context;
use crate::stage::{CharMapper, Stage, StageError, StaticFusableStage};
use crate::stage::trim::{lemma_trim_when_not_needed, needs_trim, spec_needs_trim, trim_cow};
use crate::text::{chars_to_string, spec_trim, str_chars, trim_chars};

verus! {

/// Trims whitespace from both ends of the text.
#[derive(Debug, Default, Clone, Copy)]
pub struct TrimWhitespace;

impl Stage for TrimWhitespace {
    open spec fn spec_needs_apply(&self, text: Seq<char>, ctx: &Context) -> bool {
        spec_needs_trim(text)
    }

    open spec fn spec_apply(&self, text: Seq<char>, ctx: &Context) -> Seq<char> {
        spec_trim(text)
    }

    open spec fn spec_skip_sound(&self, text: Seq<char>, ctx: &Context) -> bool {
        true
    }

    fn name(&self) -> (r: &'static str)
        ensures
            r@ == "trim_ws"@,
    {
        "trim_ws"
    }

    fn needs_apply(&self, text: &str, ctx: &Context) -> (r: Result<bool, StageError>) {
        Ok(needs_trim(text))
    }

    /// A text that trimming leaves as it is comes back as it came.
    fn apply<'a>(&self, text: Cow<'a, str>, ctx: &Context) -> (r: Result<Cow<'a, str>, StageError>)
        ensures
            spec_trim(text@) == text@ ==> r == Ok::<Cow<'a, str>, StageError>(text),
    {
        Ok(trim_cow(text))
    }

    open spec fn spec_safe_skip(&self) -> bool {
        false
    }

    fn safe_skip_approximation(&self) -> (r: bool) {
        false
    }

    proof fn lemma_apply_when_not_needed(&self, text: Seq<char>, ctx: &Context) {
        if !self.spec_needs_apply(text, ctx) && self.spec_skip_sound(text, ctx) {
            lemma_trim_when_not_needed(text);
        }
    }
}

impl CharMapper for TrimWhitespace {
    open spec fn spec_map(&self, c: char, ctx: &Context) -> Option<char> {
        Some(c)
    }

    open spec fn spec_bind(&self, text: Seq<char>, ctx: &Context) -> Seq<char> {
        spec_trim(text)
    }

    fn map(&self, c: char, ctx: &Context) -> (r: Option<char>) {
        Some(c)
    }

    fn bind(&self, text: &str, ctx: &Context) -> (r: String) {
        chars_to_string(&trim_chars(&str_chars(text)))
    }
}

impl TrimWhitespace {
    /// The stage as a character map: always available.
    pub fn as_char_mapper(&self, ctx: &Context) -> (r: Option<&TrimWhitespace>)
        ensures
            r == Some(self),
    {
        Some(self)
    }
}

impl StaticFusableStage for TrimWhitespace {

    open spec fn spec_sound_everywhere(&self, ctx: &Context) -> bool {
        true
    }

    proof fn lemma_sound_everywhere(&self, text: Seq<char>, ctx: &Context) {
    }
    open spec fn spec_supports_static_fusion(&self) -> bool {
        true
    }

    open spec fn spec_fused(&self, text: Seq<char>, ctx: &Context) -> Seq<char> {
        spec_trim(text)
    }

    open spec fn spec_fused_sound(&self, text: Seq<char>, ctx: &Context) -> bool {
        true
    }

    fn supports_static_fusion(&self) -> (r: bool) {
        true
    }

    fn fused_apply(&self, text: &str, ctx: &Context) -> (r: String) {
        self.bind(text, ctx)
    }

    proof fn lemma_fused_is_apply(&self, text: Seq<char>, ctx: &Context) {
    }
}

} // verus!
