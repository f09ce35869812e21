//! Full-width to half-width conversion.
use vstd::prelude::*;
use std::borrow::Cow;
use crate::context::Context;
use crate::stage::{Stage, StageError, StaticFusableStage, CharStream, StrChars, collect_stream};
use crate::text::{push_char, str_chars};
use crate::unicode::{spec_fullwidth_to_halfwidth, fullwidth_to_halfwidth};

verus! {

/// Converts full-width ASCII forms (`U+FF01..=U+FF5E`) to their ASCII
/// counterparts and the ideographic space (`U+3000`) to a space.
#[derive(Debug, Default, Clone, Copy)]
pub struct UnifyWidth;

/// What one character becomes.
pub open spec fn spec_unify_width_char(c: char) -> Seq<char> {
    seq![spec_fullwidth_to_halfwidth(c)]
}

/// The mapped text.
pub open spec fn spec_unify_width(s: Seq<char>) -> Seq<char>
    decreases s.len(),
{
    if s.len() == 0 {
        Seq::empty()
    } else {
        spec_unify_width_char(s[0]) + spec_unify_width(s.drop_first())
    }
}

/// The quick check: some character that the map changes.
pub open spec fn spec_has_fullwidth(s: Seq<char>) -> bool {
    exists|i: int| 0 <= i < s.len() && crate::unicode::spec_is_fullwidth(#[trigger] s[i])
}

fn unify_width_push(out: &mut String, c: char)
    ensures
        final(out)@ == old(out)@ + spec_unify_width_char(c),
{
    let m = fullwidth_to_halfwidth(c);
    push_char(out, m);
    assert(old(out)@.push(m) =~= old(out)@ + seq![m]);
}

pub(crate) fn unify_width(text: &str) -> (r: String)
    ensures
        r@ == spec_unify_width(text@),
{
    let chars = str_chars(text);
    let n = chars.len();
    let mut out = String::new();
    assert(text@.skip(0) =~= text@);
    for i in 0..n
        invariant
            n == chars@.len(),
            chars@ == text@,
            spec_unify_width(text@) == out@ + spec_unify_width(text@.skip(i as int)),
    {
        let ghost o0 = out@;
        assert(text@.skip(i as int).drop_first() =~= text@.skip(i + 1));
        assert(text@.skip(i as int)[0] == chars@[i as int]);
        unify_width_push(&mut out, chars[i]);
        assert(o0 + spec_unify_width(text@.skip(i as int)) =~= out@ + spec_unify_width(text@.skip(i + 1)));
    }
    assert(spec_unify_width(text@.skip(n as int)) =~= Seq::<char>::empty());
    assert(out@ + Seq::<char>::empty() =~= out@);
    out
}

pub(crate) proof fn lemma_unify_width_identity(s: Seq<char>)
    requires
        forall|i: int| 0 <= i < s.len() ==> spec_unify_width_char(#[trigger] s[i]) == seq![s[i]],
    ensures
        spec_unify_width(s) == s,
    decreases s.len(),
{
    if s.len() > 0 {
        let t = s.drop_first();
        assert(spec_unify_width_char(s[0]) == seq![s[0]]);
        assert forall|i: int| 0 <= i < t.len() implies spec_unify_width_char(#[trigger] t[i]) == seq![t[i]] by {
            assert(t[i] == s[i + 1]);
        }
        lemma_unify_width_identity(t);
        assert(seq![s[0]] + t =~= s);
    }
}

proof fn lemma_spec_unify_width_concat(a: Seq<char>, b: Seq<char>)
    ensures
        spec_unify_width(a + b) == spec_unify_width(a) + spec_unify_width(b),
    decreases a.len(),
{
    if a.len() == 0 {
        assert(a + b =~= b);
        assert(Seq::<char>::empty() + spec_unify_width(b) =~= spec_unify_width(b));
    } else {
        assert((a + b).drop_first() =~= a.drop_first() + b);
        assert((a + b)[0] == a[0]);
        lemma_spec_unify_width_concat(a.drop_first(), b);
        assert(spec_unify_width_char(a[0]) + (spec_unify_width(a.drop_first()) + spec_unify_width(b)) =~= (spec_unify_width_char(a[0])
            + spec_unify_width(a.drop_first())) + spec_unify_width(b));
    }
}

proof fn lemma_unify_width_pointwise(s: Seq<char>)
    ensures
        spec_unify_width(s).len() == s.len(),
        forall|i: int|
            0 <= i < s.len() ==> #[trigger] spec_unify_width(s)[i] == spec_fullwidth_to_halfwidth(
                s[i],
            ),
    decreases s.len(),
{
    if s.len() > 0 {
        let t = s.drop_first();
        lemma_unify_width_pointwise(t);
        assert forall|i: int| 0 <= i < s.len() implies #[trigger] spec_unify_width(s)[i]
            == spec_fullwidth_to_halfwidth(s[i]) by {
            if i > 0 {
                assert(spec_unify_width(s)[i] == spec_unify_width(t)[i - 1]);
                assert(t[i - 1] == s[i]);
            }
        }
    }
}

/// A full-width character never maps to itself.
proof fn lemma_fullwidth_moves(c: char)
    requires
        crate::unicode::spec_is_fullwidth(c),
    ensures
        spec_fullwidth_to_halfwidth(c) != c,
{
    let cp = c as u32;
    if 0xFF01 <= cp <= 0xFF5E {
        let b = (cp - 0xFEE0) as u8;
        assert((b as char) as u32 == b as u32);
        assert((b as u32) < 0x100);
    }
}

/// The quick check is exact: it says yes exactly when the stage changes
/// the text.
pub proof fn lemma_unify_width_exact(s: Seq<char>)
    ensures
        spec_has_fullwidth(s) == (spec_unify_width(s) != s),
{
    lemma_unify_width_pointwise(s);
    if spec_has_fullwidth(s) {
        let i = choose|i: int| 0 <= i < s.len() && crate::unicode::spec_is_fullwidth(#[trigger] s[i]);
        lemma_fullwidth_moves(s[i]);
        assert(spec_unify_width(s)[i] != s[i]);
    } else {
        assert forall|i: int| 0 <= i < s.len() implies spec_unify_width(s)[i] == s[i] by {
            assert(!crate::unicode::spec_is_fullwidth(s[i]));
        }
        assert(spec_unify_width(s) =~= s);
    }
}

/// Mapping twice maps nothing more.
pub proof fn lemma_unify_width_idempotent(text: Seq<char>)
    ensures
        spec_unify_width(spec_unify_width(text)) == spec_unify_width(text),
    decreases text.len(),
{
    if text.len() > 0 {
        let c = text[0];
        assert(spec_unify_width(spec_unify_width_char(c)) =~= spec_unify_width_char(c)) by {
            reveal_with_fuel(spec_unify_width, 2);
        }
        lemma_unify_width_idempotent(text.drop_first());
        lemma_spec_unify_width_concat(spec_unify_width_char(c), spec_unify_width(text.drop_first()));
    }
}

impl Stage for UnifyWidth {
    open spec fn spec_needs_apply(&self, text: Seq<char>, ctx: &Context) -> bool {
        spec_has_fullwidth(text)
    }

    open spec fn spec_apply(&self, text: Seq<char>, ctx: &Context) -> Seq<char> {
        spec_unify_width(text)
    }

    open spec fn spec_skip_sound(&self, text: Seq<char>, ctx: &Context) -> bool {
        true
    }

    fn name(&self) -> (r: &'static str)
        ensures
            r@ == "unify_width"@,
    {
        "unify_width"
    }

    fn needs_apply(&self, text: &str, ctx: &Context) -> (r: Result<bool, StageError>) {
        let chars = str_chars(text);
        let n = chars.len();
        for i in 0..n
            invariant
                n == chars@.len(),
                chars@ == text@,
                forall|j: int| 0 <= j < i ==> !(crate::unicode::spec_is_fullwidth(#[trigger] text@[j])),
        {
            let c = chars[i];
            if crate::unicode::is_fullwidth(c) {
                assert(text@[i as int] == c);
                return Ok(true);
            }
        }
        Ok(false)
    }

    fn apply<'a>(&self, text: Cow<'a, str>, ctx: &Context) -> (r: Result<Cow<'a, str>, StageError>) {
        let t: &str = match &text {
            Cow::Borrowed(b) => b,
            Cow::Owned(o) => o.as_str(),
        };
        Ok(Cow::Owned(unify_width(t)))
    }

    open spec fn spec_safe_skip(&self) -> bool {
        false
    }

    fn safe_skip_approximation(&self) -> (r: bool) {
        false
    }

    proof fn lemma_apply_when_not_needed(&self, text: Seq<char>, ctx: &Context) {
        if !self.spec_needs_apply(text, ctx) && self.spec_skip_sound(text, ctx) {
            assert forall|i: int| 0 <= i < text.len() implies spec_unify_width_char(#[trigger] text[i]) == seq![text[i]] by {

            }
            lemma_unify_width_identity(text);
        }
    }
}

/// The adapter: maps one character at a time.
pub struct UnifyWidthAdapter<I> {
    input: I,
}

impl<I: CharStream> CharStream for UnifyWidthAdapter<I> {
    closed spec fn rest(&self) -> Seq<char> {
        spec_unify_width(self.input.rest())
    }

    closed spec fn stream_inv(&self) -> bool {
        self.input.stream_inv()
    }

    fn next_char(&mut self) -> (r: Option<char>) {
        let ghost all = self.rest();
        loop
            invariant
                self.stream_inv(),
                self.rest() == all,
                all == old(self).rest(),
            decreases self.input.rest().len(),
        {
            let ghost before = self.input.rest();
            let c = match self.input.next_char() {
                Some(c) => c,
                None => {
                    return None;
                },
            };
            assert(before.drop_first() =~= self.input.rest());
            let m = fullwidth_to_halfwidth(c);
            assert(all =~= seq![m] + self.rest());
            return Some(m);
        }
    }
}

impl UnifyWidth {
    /// The adapter over `input`.
    pub fn static_fused_adapter<I: CharStream>(&self, input: I, ctx: &Context) -> (r: UnifyWidthAdapter<I>)
        requires
            input.stream_inv(),
        ensures
            r.stream_inv(),
            r.rest() == spec_unify_width(input.rest()),
    {
        UnifyWidthAdapter { input }
    }
}

impl StaticFusableStage for UnifyWidth {

    open spec fn spec_sound_everywhere(&self, ctx: &Context) -> bool {
        true
    }

    proof fn lemma_sound_everywhere(&self, text: Seq<char>, ctx: &Context) {
    }
    open spec fn spec_supports_static_fusion(&self) -> bool {
        true
    }

    open spec fn spec_fused(&self, text: Seq<char>, ctx: &Context) -> Seq<char> {
        spec_unify_width(text)
    }

    open spec fn spec_fused_sound(&self, text: Seq<char>, ctx: &Context) -> bool {
        true
    }

    fn supports_static_fusion(&self) -> (r: bool) {
        true
    }

    fn fused_apply(&self, text: &str, ctx: &Context) -> (r: String) {
        let mut adapter = self.static_fused_adapter(StrChars::new(text), ctx);
        collect_stream(&mut adapter)
    }

    proof fn lemma_fused_is_apply(&self, text: Seq<char>, ctx: &Context) {
    }
}

} // verus!
