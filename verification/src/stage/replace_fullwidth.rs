//! Full-width Latin letters, digits and punctuation to their ASCII forms,
//! as a character map: a text without full-width characters is handed
//! back as it came.
use vstd::prelude::*;
use std::borrow::Cow;
use crate::context::Context;
use crate::process::cow_str;
use crate::stage::{CharMapper, Stage, StageError, StaticFusableStage};
use crate::stage::unify_width::{
    spec_has_fullwidth, spec_unify_width, spec_unify_width_char, unify_width,
    lemma_unify_width_identity,
};
use crate::text::str_chars;
use crate::unicode::{fullwidth_to_halfwidth, is_fullwidth, spec_fullwidth_to_halfwidth, spec_is_fullwidth};

verus! {

/// Replaces full-width characters by their half-width forms.
#[derive(Debug, Default, Clone, Copy)]
pub struct ReplaceFullwidth;

fn has_fullwidth(text: &str) -> (r: bool)
    ensures
        r == spec_has_fullwidth(text@),
{
    let chars = str_chars(text);
    let n = chars.len();
    for i in 0..n
        invariant
            n == chars@.len(),
            chars@ == text@,
            forall|j: int| 0 <= j < i ==> !spec_is_fullwidth(#[trigger] text@[j]),
    {
        if is_fullwidth(chars[i]) {
            assert(text@[i as int] == chars@[i as int]);
            return true;
        }
    }
    false
}

impl Stage for ReplaceFullwidth {
    open spec fn spec_needs_apply(&self, text: Seq<char>, ctx: &Context) -> bool {
        spec_has_fullwidth(text)
    }

    open spec fn spec_apply(&self, text: Seq<char>, ctx: &Context) -> Seq<char> {
        spec_unify_width(text)
    }

    open spec fn spec_skip_sound(&self, text: Seq<char>, ctx: &Context) -> bool {
        true
    }

    fn name(&self) -> (r: &'static str)
        ensures
            r@ == "replace_fullwidth"@,
    {
        "replace_fullwidth"
    }

    fn needs_apply(&self, text: &str, ctx: &Context) -> (r: Result<bool, StageError>) {
        Ok(has_fullwidth(text))
    }

    /// A text without full-width characters comes back as it came.
    fn apply<'a>(&self, text: Cow<'a, str>, ctx: &Context) -> (r: Result<Cow<'a, str>, StageError>)
        ensures
            !spec_has_fullwidth(text@) ==> r == Ok::<Cow<'a, str>, StageError>(text),
    {
        if !has_fullwidth(cow_str(&text)) {
            proof {
                self.lemma_apply_when_not_needed(text@, ctx);
            }
            return Ok(text);
        }
        let out = unify_width(cow_str(&text));
        Ok(Cow::Owned(out))
    }

    open spec fn spec_safe_skip(&self) -> bool {
        false
    }

    fn safe_skip_approximation(&self) -> (r: bool) {
        false
    }

    proof fn lemma_apply_when_not_needed(&self, text: Seq<char>, ctx: &Context) {
        if !self.spec_needs_apply(text, ctx) && self.spec_skip_sound(text, ctx) {
            assert forall|i: int| 0 <= i < text.len() implies spec_unify_width_char(#[trigger] text[i])
                == seq![text[i]] by {}
            lemma_unify_width_identity(text);
        }
    }
}

impl CharMapper for ReplaceFullwidth {
    open spec fn spec_map(&self, c: char, ctx: &Context) -> Option<char> {
        Some(spec_fullwidth_to_halfwidth(c))
    }

    open spec fn spec_bind(&self, text: Seq<char>, ctx: &Context) -> Seq<char> {
        spec_unify_width(text)
    }

    fn map(&self, c: char, ctx: &Context) -> (r: Option<char>) {
        Some(fullwidth_to_halfwidth(c))
    }

    fn bind(&self, text: &str, ctx: &Context) -> (r: String) {
        unify_width(text)
    }
}

impl ReplaceFullwidth {
    /// The stage as a character map: always available.
    pub fn as_char_mapper(&self, ctx: &Context) -> (r: Option<&ReplaceFullwidth>)
        ensures
            r == Some(self),
    {
        Some(self)
    }
}

impl StaticFusableStage for ReplaceFullwidth {

    open spec fn spec_sound_everywhere(&self, ctx: &Context) -> bool {
        true
    }

    proof fn lemma_sound_everywhere(&self, text: Seq<char>, ctx: &Context) {
    }
    open spec fn spec_supports_static_fusion(&self) -> bool {
        true
    }

    open spec fn spec_fused(&self, text: Seq<char>, ctx: &Context) -> Seq<char> {
        spec_unify_width(text)
    }

    open spec fn spec_fused_sound(&self, text: Seq<char>, ctx: &Context) -> bool {
        true
    }

    fn supports_static_fusion(&self) -> (r: bool) {
        true
    }

    fn fused_apply(&self, text: &str, ctx: &Context) -> (r: String) {
        self.bind(text, ctx)
    }

    proof fn lemma_fused_is_apply(&self, text: Seq<char>, ctx: &Context) {
    }
}

} // verus!
