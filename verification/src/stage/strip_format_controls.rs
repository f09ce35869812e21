//! Removal of invisible format controls.
use vstd::prelude::*;
use std::borrow::Cow;
use crate::context::Context;
use crate::stage::{Stage, StageError, StaticFusableStage, CharStream, StrChars, collect_stream};
use crate::text::{
    push_char, str_chars, spec_keep_chars, lemma_keep_chars_identity, lemma_keep_chars_idempotent,
    lemma_keep_chars_exact,
};
use crate::unicode::{spec_is_format_control, is_format_control, contains_format_controls};

verus! {

/// Removes invisible format controls: zero-width spaces and joiners, bidi
/// marks, embeddings, overrides and isolates, invisible operators and the BOM.
#[derive(Debug, Default, Clone, Copy)]
pub struct StripFormatControls;

/// The characters this stage removes.
pub open spec fn spec_format_control_drop() -> spec_fn(char) -> bool {
    |c: char| spec_is_format_control(c)
}

/// The text without the removed characters.
pub open spec fn spec_strip_format_controls(text: Seq<char>) -> Seq<char> {
    spec_keep_chars(text, spec_format_control_drop())
}

/// Whether the text holds a character this stage removes.
pub open spec fn spec_has_format_control(text: Seq<char>) -> bool {
    exists|i: int| 0 <= i < text.len() && spec_is_format_control(#[trigger] text[i])
}

fn strip_format_controls(text: &str) -> (r: String)
    ensures
        r@ == spec_strip_format_controls(text@),
{
    let chars = str_chars(text);
    let n = chars.len();
    let mut out = String::new();
    assert(text@.skip(0) =~= text@);
    for i in 0..n
        invariant
            n == chars@.len(),
            chars@ == text@,
            spec_strip_format_controls(text@) == out@ + spec_strip_format_controls(text@.skip(i as int)),
    {
        let ghost o0 = out@;
        assert(text@.skip(i as int).drop_first() =~= text@.skip(i + 1));
        assert(text@.skip(i as int)[0] == chars@[i as int]);
        let c = chars[i];
        if !is_format_control(c) {
            push_char(&mut out, c);
        }
        assert(o0 + spec_strip_format_controls(text@.skip(i as int)) =~= out@ + spec_strip_format_controls(text@.skip(i + 1)));
    }
    assert(spec_strip_format_controls(text@.skip(n as int)) =~= Seq::<char>::empty());
    assert(out@ + Seq::<char>::empty() =~= out@);
    out
}

impl Stage for StripFormatControls {
    open spec fn spec_needs_apply(&self, text: Seq<char>, ctx: &Context) -> bool {
        spec_has_format_control(text)
    }

    open spec fn spec_apply(&self, text: Seq<char>, ctx: &Context) -> Seq<char> {
        spec_strip_format_controls(text)
    }

    open spec fn spec_skip_sound(&self, text: Seq<char>, ctx: &Context) -> bool {
        true
    }

    fn name(&self) -> (r: &'static str)
        ensures
            r@ == "remove_format_controls"@,
    {
        "remove_format_controls"
    }

    fn needs_apply(&self, text: &str, ctx: &Context) -> (r: Result<bool, StageError>) {
        Ok(contains_format_controls(text))
    }

    fn apply<'a>(&self, text: Cow<'a, str>, ctx: &Context) -> (r: Result<Cow<'a, str>, StageError>) {
        let t: &str = match &text {
            Cow::Borrowed(b) => b,
            Cow::Owned(o) => o.as_str(),
        };
        Ok(Cow::Owned(strip_format_controls(t)))
    }

    open spec fn spec_safe_skip(&self) -> bool {
        false
    }

    fn safe_skip_approximation(&self) -> (r: bool) {
        false
    }

    proof fn lemma_apply_when_not_needed(&self, text: Seq<char>, ctx: &Context) {
        if !self.spec_needs_apply(text, ctx) && self.spec_skip_sound(text, ctx) {
            assert forall|i: int| 0 <= i < text.len() implies !spec_format_control_drop()(#[trigger] text[i]) by {
            }
            lemma_keep_chars_identity(text, spec_format_control_drop());
        }
    }
}

/// The quick check is exact: it says yes exactly when the stage changes
/// the text.
pub proof fn lemma_strip_format_controls_exact(text: Seq<char>)
    ensures
        spec_has_format_control(text) == (spec_strip_format_controls(text) != text),
{
    lemma_keep_chars_exact(text, spec_format_control_drop());
    if spec_has_format_control(text) {
        let i = choose|i: int| 0 <= i < text.len() && spec_is_format_control(#[trigger] text[i]);
        assert(spec_format_control_drop()(text[i]));
    }
    if exists|i: int| 0 <= i < text.len() && spec_format_control_drop()(#[trigger] text[i]) {
        let i = choose|i: int| 0 <= i < text.len() && spec_format_control_drop()(#[trigger] text[i]);
        assert(spec_is_format_control(text[i]));
    }
}

/// Removing twice removes nothing more.
pub proof fn lemma_strip_format_controls_idempotent(text: Seq<char>)
    ensures
        spec_strip_format_controls(spec_strip_format_controls(text)) == spec_strip_format_controls(text),
{
    lemma_keep_chars_idempotent(text, spec_format_control_drop());
}

/// The adapter: skips the removed characters.
pub struct StripFormatControlsAdapter<I> {
    input: I,
}

impl<I: CharStream> CharStream for StripFormatControlsAdapter<I> {
    closed spec fn rest(&self) -> Seq<char> {
        spec_strip_format_controls(self.input.rest())
    }

    closed spec fn stream_inv(&self) -> bool {
        self.input.stream_inv()
    }

    fn next_char(&mut self) -> (r: Option<char>) {
        let ghost all = self.rest();
        loop
            invariant
                self.stream_inv(),
                self.rest() == all,
                all == old(self).rest(),
            decreases self.input.rest().len(),
        {
            let ghost before = self.input.rest();
            match self.input.next_char() {
                Some(c) => {
                    assert(before.drop_first() =~= self.input.rest());
                    if !is_format_control(c) {
                        assert(all =~= seq![c] + self.rest());
                        return Some(c);
                    }
                },
                None => {
                    return None;
                },
            }
        }
    }
}

impl StripFormatControls {
    /// The adapter over `input`.
    pub fn static_fused_adapter<I: CharStream>(&self, input: I, ctx: &Context) -> (r: StripFormatControlsAdapter<I>)
        requires
            input.stream_inv(),
        ensures
            r.stream_inv(),
            r.rest() == spec_strip_format_controls(input.rest()),
    {
        StripFormatControlsAdapter { input }
    }
}

impl StaticFusableStage for StripFormatControls {

    open spec fn spec_sound_everywhere(&self, ctx: &Context) -> bool {
        true
    }

    proof fn lemma_sound_everywhere(&self, text: Seq<char>, ctx: &Context) {
    }
    open spec fn spec_supports_static_fusion(&self) -> bool {
        true
    }

    open spec fn spec_fused(&self, text: Seq<char>, ctx: &Context) -> Seq<char> {
        spec_strip_format_controls(text)
    }

    open spec fn spec_fused_sound(&self, text: Seq<char>, ctx: &Context) -> bool {
        true
    }

    fn supports_static_fusion(&self) -> (r: bool) {
        true
    }

    fn fused_apply(&self, text: &str, ctx: &Context) -> (r: String) {
        let mut adapter = self.static_fused_adapter(StrChars::new(text), ctx);
        collect_stream(&mut adapter)
    }

    proof fn lemma_fused_is_apply(&self, text: Seq<char>, ctx: &Context) {
    }
}

} // verus!
