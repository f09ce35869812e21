//! Removal of C0 and C1 control characters, as a character map; a text
//! without them is handed back as it came.
use vstd::prelude::*;
use std::borrow::Cow;
use crate::context::Context;
use crate::process::cow_str;
use crate::stage::{CharMapper, Stage, StageError, StaticFusableStage};
use crate::stage::strip_control_chars::{
    spec_control_drop, spec_has_control, spec_strip_control_chars, strip_control_chars,
};
use crate::text::{lemma_keep_chars_identity, str_chars};
use crate::unicode::{is_control, spec_is_control};

verus! {

/// Removes control characters (`Cc`).
#[derive(Debug, Default, Clone, Copy)]
pub struct RemoveControlChars;

fn has_control(text: &str) -> (r: bool)
    ensures
        r == spec_has_control(text@),
{
    let chars = str_chars(text);
    let n = chars.len();
    for i in 0..n
        invariant
            n == chars@.len(),
            chars@ == text@,
            forall|j: int| 0 <= j < i ==> !spec_is_control(#[trigger] text@[j]),
    {
        if is_control(chars[i]) {
            assert(spec_is_control(text@[i as int]));
            return true;
        }
    }
    false
}

impl Stage for RemoveControlChars {
    open spec fn spec_needs_apply(&self, text: Seq<char>, ctx: &Context) -> bool {
        spec_has_control(text)
    }

    open spec fn spec_apply(&self, text: Seq<char>, ctx: &Context) -> Seq<char> {
        spec_strip_control_chars(text)
    }

    open spec fn spec_skip_sound(&self, text: Seq<char>, ctx: &Context) -> bool {
        true
    }

    fn name(&self) -> (r: &'static str)
        ensures
            r@ == "remove_control_chars"@,
    {
        "remove_control_chars"
    }

    fn needs_apply(&self, text: &str, ctx: &Context) -> (r: Result<bool, StageError>) {
        Ok(has_control(text))
    }

    /// A text without control characters comes back as it came.
    fn apply<'a>(&self, text: Cow<'a, str>, ctx: &Context) -> (r: Result<Cow<'a, str>, StageError>)
        ensures
            !spec_has_control(text@) ==> r == Ok::<Cow<'a, str>, StageError>(text),
    {
        if !has_control(cow_str(&text)) {
            proof {
                self.lemma_apply_when_not_needed(text@, ctx);
            }
            return Ok(text);
        }
        Ok(Cow::Owned(strip_control_chars(cow_str(&text))))
    }

    open spec fn spec_safe_skip(&self) -> bool {
        false
    }

    fn safe_skip_approximation(&self) -> (r: bool) {
        false
    }

    proof fn lemma_apply_when_not_needed(&self, text: Seq<char>, ctx: &Context) {
        if !self.spec_needs_apply(text, ctx) && self.spec_skip_sound(text, ctx) {
            lemma_keep_chars_identity(text, spec_control_drop());
        }
    }
}

impl CharMapper for RemoveControlChars {
    open spec fn spec_map(&self, c: char, ctx: &Context) -> Option<char> {
        if spec_is_control(c) {
            None
        } else {
            Some(c)
        }
    }

    open spec fn spec_bind(&self, text: Seq<char>, ctx: &Context) -> Seq<char> {
        spec_strip_control_chars(text)
    }

    fn map(&self, c: char, ctx: &Context) -> (r: Option<char>) {
        if is_control(c) {
            None
        } else {
            Some(c)
        }
    }

    fn bind(&self, text: &str, ctx: &Context) -> (r: String) {
        strip_control_chars(text)
    }
}

impl RemoveControlChars {
    /// The stage as a character map: always available.
    pub fn as_char_mapper(&self, ctx: &Context) -> (r: Option<&RemoveControlChars>)
        ensures
            r == Some(self),
    {
        Some(self)
    }
}

impl StaticFusableStage for RemoveControlChars {

    open spec fn spec_sound_everywhere(&self, ctx: &Context) -> bool {
        true
    }

    proof fn lemma_sound_everywhere(&self, text: Seq<char>, ctx: &Context) {
    }
    open spec fn spec_supports_static_fusion(&self) -> bool {
        true
    }

    open spec fn spec_fused(&self, text: Seq<char>, ctx: &Context) -> Seq<char> {
        spec_strip_control_chars(text)
    }

    open spec fn spec_fused_sound(&self, text: Seq<char>, ctx: &Context) -> bool {
        true
    }

    fn supports_static_fusion(&self) -> (r: bool) {
        true
    }

    fn fused_apply(&self, text: &str, ctx: &Context) -> (r: String) {
        self.bind(text, ctx)
    }

    proof fn lemma_fused_is_apply(&self, text: Seq<char>, ctx: &Context) {
    }
}

} // verus!
