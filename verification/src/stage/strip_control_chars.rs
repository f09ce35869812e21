//! Removal of control characters (C0, DEL and C1).
use vstd::prelude::*;
use std::borrow::Cow;
use crate::context::Context;
use crate::stage::{Stage, StageError, StaticFusableStage, CharStream, StrChars, collect_stream};
use crate::text::{
    push_char, str_chars, spec_keep_chars, lemma_keep_chars_identity, lemma_keep_chars_idempotent,
    lemma_keep_chars_exact,
};
use crate::unicode::{spec_is_control, is_control};

verus! {

/// Removes control characters: U+0000–U+001F, U+007F and U+0080–U+009F.
#[derive(Debug, Default, Clone, Copy)]
pub struct StripControlChars;

/// The characters this stage removes.
pub open spec fn spec_control_drop() -> spec_fn(char) -> bool {
    |c: char| spec_is_control(c)
}

/// The text without the removed characters.
pub open spec fn spec_strip_control_chars(text: Seq<char>) -> Seq<char> {
    spec_keep_chars(text, spec_control_drop())
}

/// Whether the text holds a character this stage removes.
pub open spec fn spec_has_control(text: Seq<char>) -> bool {
    exists|i: int| 0 <= i < text.len() && spec_is_control(#[trigger] text[i])
}

pub(crate) fn strip_control_chars(text: &str) -> (r: String)
    ensures
        r@ == spec_strip_control_chars(text@),
{
    let chars = str_chars(text);
    let n = chars.len();
    let mut out = String::new();
    assert(text@.skip(0) =~= text@);
    for i in 0..n
        invariant
            n == chars@.len(),
            chars@ == text@,
            spec_strip_control_chars(text@) == out@ + spec_strip_control_chars(text@.skip(i as int)),
    {
        let ghost o0 = out@;
        assert(text@.skip(i as int).drop_first() =~= text@.skip(i + 1));
        assert(text@.skip(i as int)[0] == chars@[i as int]);
        let c = chars[i];
        if !is_control(c) {
            push_char(&mut out, c);
        }
        assert(o0 + spec_strip_control_chars(text@.skip(i as int)) =~= out@ + spec_strip_control_chars(text@.skip(i + 1)));
    }
    assert(spec_strip_control_chars(text@.skip(n as int)) =~= Seq::<char>::empty());
    assert(out@ + Seq::<char>::empty() =~= out@);
    out
}

impl Stage for StripControlChars {
    open spec fn spec_needs_apply(&self, text: Seq<char>, ctx: &Context) -> bool {
        spec_has_control(text)
    }

    open spec fn spec_apply(&self, text: Seq<char>, ctx: &Context) -> Seq<char> {
        spec_strip_control_chars(text)
    }

    open spec fn spec_skip_sound(&self, text: Seq<char>, ctx: &Context) -> bool {
        true
    }

    fn name(&self) -> (r: &'static str)
        ensures
            r@ == "remove_control_chars"@,
    {
        "remove_control_chars"
    }

    fn needs_apply(&self, text: &str, ctx: &Context) -> (r: Result<bool, StageError>) {
        let chars = str_chars(text);
        let n = chars.len();
        for i in 0..n
            invariant
                n == chars@.len(),
                chars@ == text@,
                forall|j: int| 0 <= j < i ==> !spec_is_control(#[trigger] text@[j]),
        {
            if is_control(chars[i]) {
                assert(spec_is_control(text@[i as int]));
                return Ok(true);
            }
        }
        Ok(false)
    }

    fn apply<'a>(&self, text: Cow<'a, str>, ctx: &Context) -> (r: Result<Cow<'a, str>, StageError>) {
        let t: &str = match &text {
            Cow::Borrowed(b) => b,
            Cow::Owned(o) => o.as_str(),
        };
        Ok(Cow::Owned(strip_control_chars(t)))
    }

    open spec fn spec_safe_skip(&self) -> bool {
        false
    }

    fn safe_skip_approximation(&self) -> (r: bool) {
        false
    }

    proof fn lemma_apply_when_not_needed(&self, text: Seq<char>, ctx: &Context) {
        if !self.spec_needs_apply(text, ctx) && self.spec_skip_sound(text, ctx) {
            assert forall|i: int| 0 <= i < text.len() implies !spec_control_drop()(#[trigger] text[i]) by {
            }
            lemma_keep_chars_identity(text, spec_control_drop());
        }
    }
}

/// The quick check is exact: it says yes exactly when the stage changes
/// the text.
pub proof fn lemma_strip_control_chars_exact(text: Seq<char>)
    ensures
        spec_has_control(text) == (spec_strip_control_chars(text) != text),
{
    lemma_keep_chars_exact(text, spec_control_drop());
    if spec_has_control(text) {
        let i = choose|i: int| 0 <= i < text.len() && spec_is_control(#[trigger] text[i]);
        assert(spec_control_drop()(text[i]));
    }
    if exists|i: int| 0 <= i < text.len() && spec_control_drop()(#[trigger] text[i]) {
        let i = choose|i: int| 0 <= i < text.len() && spec_control_drop()(#[trigger] text[i]);
        assert(spec_is_control(text[i]));
    }
}

/// Removing twice removes nothing more.
pub proof fn lemma_strip_control_chars_idempotent(text: Seq<char>)
    ensures
        spec_strip_control_chars(spec_strip_control_chars(text)) == spec_strip_control_chars(text),
{
    lemma_keep_chars_idempotent(text, spec_control_drop());
}

/// The adapter: skips the removed characters.
pub struct StripControlCharsAdapter<I> {
    input: I,
}

impl<I: CharStream> CharStream for StripControlCharsAdapter<I> {
    closed spec fn rest(&self) -> Seq<char> {
        spec_strip_control_chars(self.input.rest())
    }

    closed spec fn stream_inv(&self) -> bool {
        self.input.stream_inv()
    }

    fn next_char(&mut self) -> (r: Option<char>) {
        let ghost all = self.rest();
        loop
            invariant
                self.stream_inv(),
                self.rest() == all,
                all == old(self).rest(),
            decreases self.input.rest().len(),
        {
            let ghost before = self.input.rest();
            match self.input.next_char() {
                Some(c) => {
                    assert(before.drop_first() =~= self.input.rest());
                    if !is_control(c) {
                        assert(all =~= seq![c] + self.rest());
                        return Some(c);
                    }
                },
                None => {
                    return None;
                },
            }
        }
    }
}

impl StripControlChars {
    /// The adapter over `input`.
    pub fn static_fused_adapter<I: CharStream>(&self, input: I, ctx: &Context) -> (r: StripControlCharsAdapter<I>)
        requires
            input.stream_inv(),
        ensures
            r.stream_inv(),
            r.rest() == spec_strip_control_chars(input.rest()),
    {
        StripControlCharsAdapter { input }
    }
}

impl StaticFusableStage for StripControlChars {

    open spec fn spec_sound_everywhere(&self, ctx: &Context) -> bool {
        true
    }

    proof fn lemma_sound_everywhere(&self, text: Seq<char>, ctx: &Context) {
    }
    open spec fn spec_supports_static_fusion(&self) -> bool {
        true
    }

    open spec fn spec_fused(&self, text: Seq<char>, ctx: &Context) -> Seq<char> {
        spec_strip_control_chars(text)
    }

    open spec fn spec_fused_sound(&self, text: Seq<char>, ctx: &Context) -> bool {
        true
    }

    fn supports_static_fusion(&self) -> (r: bool) {
        true
    }

    fn fused_apply(&self, text: &str, ctx: &Context) -> (r: String) {
        let mut adapter = self.static_fused_adapter(StrChars::new(text), ctx);
        collect_stream(&mut adapter)
    }

    proof fn lemma_fused_is_apply(&self, text: Seq<char>, ctx: &Context) {
    }
}

} // verus!
