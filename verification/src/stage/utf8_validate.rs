//! UTF-8 validation of a text's bytes, reporting a failure as a failed
//! stage: the text is handed back as it came when they are valid.
use vstd::prelude::*;
use std::borrow::Cow;
use crate::context::Context;
use crate::process::cow_str;
use crate::stage::{Stage, StageError, StaticFusableStage};
use crate::stage::validation::validate_utf8;

verus! {

/// Validates that the text's bytes are UTF-8.
#[derive(Debug, Default, Clone, Copy)]
pub struct Utf8Validate;

impl Stage for Utf8Validate {
    open spec fn spec_needs_apply(&self, text: Seq<char>, ctx: &Context) -> bool {
        true
    }

    open spec fn spec_apply(&self, text: Seq<char>, ctx: &Context) -> Seq<char> {
        text
    }

    open spec fn spec_skip_sound(&self, text: Seq<char>, ctx: &Context) -> bool {
        true
    }

    fn name(&self) -> (r: &'static str)
        ensures
            r@ == "simd_utf8_validate"@,
    {
        "simd_utf8_validate"
    }

    /// Always runs.
    fn needs_apply(&self, text: &str, ctx: &Context) -> (r: Result<bool, StageError>) {
        Ok(true)
    }

    /// The text comes back as it came.
    fn apply<'a>(&self, text: Cow<'a, str>, ctx: &Context) -> (r: Result<Cow<'a, str>, StageError>)
        ensures
            r == Ok::<Cow<'a, str>, StageError>(text),
    {
        match validate_utf8(cow_str(&text)) {
            Ok(()) => Ok(text),
            Err(msg) => Err(StageError::Failed("invalid UTF-8", msg)),
        }
    }

    open spec fn spec_safe_skip(&self) -> bool {
        false
    }

    fn safe_skip_approximation(&self) -> (r: bool) {
        false
    }

    proof fn lemma_apply_when_not_needed(&self, text: Seq<char>, ctx: &Context) {
    }
}

impl StaticFusableStage for Utf8Validate {

    open spec fn spec_sound_everywhere(&self, ctx: &Context) -> bool {
        true
    }

    proof fn lemma_sound_everywhere(&self, text: Seq<char>, ctx: &Context) {
    }
    open spec fn spec_supports_static_fusion(&self) -> bool {
        false
    }

    open spec fn spec_fused(&self, text: Seq<char>, ctx: &Context) -> Seq<char> {
        text
    }

    open spec fn spec_fused_sound(&self, text: Seq<char>, ctx: &Context) -> bool {
        true
    }

    fn supports_static_fusion(&self) -> (r: bool) {
        false
    }

    /// Not fusable: the characters pass through.
    fn fused_apply(&self, text: &str, ctx: &Context) -> (r: String) {
        text.to_owned()
    }

    proof fn lemma_fused_is_apply(&self, text: Seq<char>, ctx: &Context) {
    }
}

} // verus!
