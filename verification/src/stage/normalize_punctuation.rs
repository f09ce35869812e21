//! Typographic punctuation to ASCII.
use vstd::prelude::*;
use std::borrow::Cow;
use crate::context::Context;
use crate::stage::{Stage, StageError, StaticFusableStage, CharStream, StrChars, collect_stream};
use crate::text::{push_char, str_chars};
use crate::unicode::{spec_normalize_punctuation_char, normalize_punctuation_char};

verus! {

/// Replaces typographic punctuation by its ASCII form: curly quotes,
/// guillemets and primes become `"` or `'`, dashes `-`, ellipses `.`,
/// bullets `*`, single guillemets `<` and `>`. A NUL character is dropped.
#[derive(Debug, Default, Clone, Copy)]
pub struct NormalizePunctuation;

/// What one character becomes.
pub open spec fn spec_punct_char(c: char) -> Seq<char> {
    let n = spec_normalize_punctuation_char(c);
    if (n as u32) == 0 {
        Seq::empty()
    } else {
        seq![n]
    }
}

/// The mapped text.
pub open spec fn spec_normalize_punctuation(s: Seq<char>) -> Seq<char>
    decreases s.len(),
{
    if s.len() == 0 {
        Seq::empty()
    } else {
        spec_punct_char(s[0]) + spec_normalize_punctuation(s.drop_first())
    }
}

/// The quick check: some character that the map changes or drops.
pub open spec fn spec_has_typographic_punctuation(s: Seq<char>) -> bool {
    exists|i: int|
        0 <= i < s.len() && (spec_normalize_punctuation_char(#[trigger] s[i]) != s[i] || (s[i] as u32)
            == 0)
}

fn punct_push(out: &mut String, c: char)
    ensures
        final(out)@ == old(out)@ + spec_punct_char(c),
{
    let m = normalize_punctuation_char(c);
    if (m as u32) != 0 {
        push_char(out, m);
        assert(old(out)@.push(m) =~= old(out)@ + seq![m]);
    } else {
        assert(old(out)@ + Seq::<char>::empty() =~= old(out)@);
    }
}

fn normalize_punctuation(text: &str) -> (r: String)
    ensures
        r@ == spec_normalize_punctuation(text@),
{
    let chars = str_chars(text);
    let n = chars.len();
    let mut out = String::new();
    assert(text@.skip(0) =~= text@);
    for i in 0..n
        invariant
            n == chars@.len(),
            chars@ == text@,
            spec_normalize_punctuation(text@) == out@ + spec_normalize_punctuation(text@.skip(i as int)),
    {
        let ghost o0 = out@;
        assert(text@.skip(i as int).drop_first() =~= text@.skip(i + 1));
        assert(text@.skip(i as int)[0] == chars@[i as int]);
        punct_push(&mut out, chars[i]);
        assert(o0 + spec_normalize_punctuation(text@.skip(i as int)) =~= out@ + spec_normalize_punctuation(text@.skip(i + 1)));
    }
    assert(spec_normalize_punctuation(text@.skip(n as int)) =~= Seq::<char>::empty());
    assert(out@ + Seq::<char>::empty() =~= out@);
    out
}

proof fn lemma_normalize_punctuation_identity(s: Seq<char>)
    requires
        forall|i: int| 0 <= i < s.len() ==> spec_punct_char(#[trigger] s[i]) == seq![s[i]],
    ensures
        spec_normalize_punctuation(s) == s,
    decreases s.len(),
{
    if s.len() > 0 {
        let t = s.drop_first();
        assert(spec_punct_char(s[0]) == seq![s[0]]);
        assert forall|i: int| 0 <= i < t.len() implies spec_punct_char(#[trigger] t[i]) == seq![t[i]] by {
            assert(t[i] == s[i + 1]);
        }
        lemma_normalize_punctuation_identity(t);
        assert(seq![s[0]] + t =~= s);
    }
}

proof fn lemma_spec_normalize_punctuation_concat(a: Seq<char>, b: Seq<char>)
    ensures
        spec_normalize_punctuation(a + b) == spec_normalize_punctuation(a) + spec_normalize_punctuation(b),
    decreases a.len(),
{
    if a.len() == 0 {
        assert(a + b =~= b);
        assert(Seq::<char>::empty() + spec_normalize_punctuation(b) =~= spec_normalize_punctuation(b));
    } else {
        assert((a + b).drop_first() =~= a.drop_first() + b);
        assert((a + b)[0] == a[0]);
        lemma_spec_normalize_punctuation_concat(a.drop_first(), b);
        assert(spec_punct_char(a[0]) + (spec_normalize_punctuation(a.drop_first()) + spec_normalize_punctuation(b)) =~= (spec_punct_char(a[0])
            + spec_normalize_punctuation(a.drop_first())) + spec_normalize_punctuation(b));
    }
}

/// Mapping twice maps nothing more.
pub proof fn lemma_normalize_punctuation_idempotent(text: Seq<char>)
    ensures
        spec_normalize_punctuation(spec_normalize_punctuation(text)) == spec_normalize_punctuation(text),
    decreases text.len(),
{
    if text.len() > 0 {
        let c = text[0];
        assert(spec_normalize_punctuation(spec_punct_char(c)) =~= spec_punct_char(c)) by {
            reveal_with_fuel(spec_normalize_punctuation, 2);
        }
        lemma_normalize_punctuation_idempotent(text.drop_first());
        lemma_spec_normalize_punctuation_concat(spec_punct_char(c), spec_normalize_punctuation(text.drop_first()));
    }
}

proof fn lemma_normalize_punctuation_len(s: Seq<char>)
    ensures
        spec_normalize_punctuation(s).len() <= s.len(),
    decreases s.len(),
{
    if s.len() > 0 {
        lemma_normalize_punctuation_len(s.drop_first());
    }
}

/// The quick check is true exactly when the map changes the text.
pub proof fn lemma_punctuation_needs_is_exact(text: Seq<char>)
    ensures
        spec_has_typographic_punctuation(text) == (spec_normalize_punctuation(text) != text),
    decreases text.len(),
{
    if text.len() > 0 {
        let c = text[0];
        let t = text.drop_first();
        let h = spec_punct_char(c);
        let r = spec_normalize_punctuation(t);
        lemma_punctuation_needs_is_exact(t);
        lemma_normalize_punctuation_len(t);
        assert(seq![c] + t =~= text);
        if h == seq![c] {
            assert(spec_normalize_punctuation(text) == seq![c] + r);
            if r == t {
                assert(spec_normalize_punctuation(text) =~= text);
            } else {
                assert((seq![c] + r).drop_first() =~= r);
            }
            assert(spec_has_typographic_punctuation(text) == spec_has_typographic_punctuation(t)) by {
                if spec_has_typographic_punctuation(t) {
                    let i = choose|i: int|
                        0 <= i < t.len() && (spec_normalize_punctuation_char(#[trigger] t[i]) != t[i]
                            || (t[i] as u32) == 0);
                    assert(text[i + 1] == t[i]);
                }
                if spec_has_typographic_punctuation(text) {
                    let i = choose|i: int|
                        0 <= i < text.len() && (spec_normalize_punctuation_char(#[trigger] text[i])
                            != text[i] || (text[i] as u32) == 0);
                    if i == 0 {
                        assert((c as u32) != 0);
                        assert(spec_normalize_punctuation_char(c) == c);
                    } else {
                        assert(t[i - 1] == text[i]);
                    }
                }
            }
        } else {
            assert(spec_normalize_punctuation_char(c) != c || (c as u32) == 0);
            assert(text[0] == c);
            if (spec_normalize_punctuation_char(c) as u32) == 0 {
                assert(spec_normalize_punctuation(text) =~= r);
            } else {
                assert(spec_normalize_punctuation(text) == seq![spec_normalize_punctuation_char(c)] + r);
                assert((seq![spec_normalize_punctuation_char(c)] + r)[0] == spec_normalize_punctuation_char(c));
            }
        }
    } else {
        assert(spec_normalize_punctuation(text) =~= text);
    }
}

/// Without NUL, the map puts out one character for each character, in place.
proof fn lemma_normalize_punctuation_in_place(s: Seq<char>)
    requires
        forall|i: int| 0 <= i < s.len() ==> (#[trigger] s[i] as u32) != 0,
    ensures
        spec_normalize_punctuation(s).len() == s.len(),
        forall|i: int|
            0 <= i < s.len() ==> #[trigger] spec_normalize_punctuation(s)[i]
                == spec_normalize_punctuation_char(s[i]),
    decreases s.len(),
{
    if s.len() > 0 {
        let t = s.drop_first();
        assert forall|i: int| 0 <= i < t.len() implies (#[trigger] t[i] as u32) != 0 by {
            assert(t[i] == s[i + 1]);
        }
        lemma_normalize_punctuation_in_place(t);
        assert((s[0] as u32) != 0);
        let c = spec_normalize_punctuation_char(s[0]);
        assert((c as u32) != 0);
        assert(spec_punct_char(s[0]) == seq![c]);
        let out = spec_normalize_punctuation(s);
        assert(out == seq![c] + spec_normalize_punctuation(t));
        assert forall|i: int| 0 <= i < s.len() implies #[trigger] out[i]
            == spec_normalize_punctuation_char(s[i]) by {
            if i > 0 {
                assert(out[i] == spec_normalize_punctuation(t)[i - 1]);
                assert(s[i] == t[i - 1]);
            }
        }
    }
}

/// Typographic punctuation becomes its ASCII form, in place, in any text
/// without NUL: double quotation marks, guillemets and primes (“ ” „ « » ′ ″)
/// become `"`, single quotation marks (‘ ’ ‚) `'`, dashes and the box
/// drawing line (– — ― ─) `-`, ellipses and leaders (… ⋯ ․ ‧) `.`, bullets
/// and middle dots (• · ∙) `*`, single guillemets ‹ and › become `<` and
/// `>`; every other character stays as it is.
pub proof fn lemma_punctuation_becomes_ascii(text: Seq<char>)
    requires
        forall|i: int| 0 <= i < text.len() ==> (#[trigger] text[i] as u32) != 0,
    ensures
        spec_normalize_punctuation(text).len() == text.len(),
        forall|i: int|
            #![trigger spec_normalize_punctuation(text)[i]]
            0 <= i < text.len() ==> {
                let c = text[i];
                let o = spec_normalize_punctuation(text)[i];
                &&& (c == '\u{201C}' || c == '\u{201D}' || c == '\u{201E}' || c == '\u{00AB}' || c
                    == '\u{00BB}' || c == '\u{2032}' || c == '\u{2033}') ==> o == '"'
                &&& (c == '\u{2018}' || c == '\u{2019}' || c == '\u{201A}') ==> o == '\''
                &&& (c == '\u{2013}' || c == '\u{2014}' || c == '\u{2015}' || c == '\u{2500}') ==> o
                    == '-'
                &&& (c == '\u{2026}' || c == '\u{22EF}' || c == '\u{2024}' || c == '\u{2027}') ==> o
                    == '.'
                &&& (c == '\u{2022}' || c == '\u{00B7}' || c == '\u{2219}') ==> o == '*'
                &&& c == '\u{2039}' ==> o == '<'
                &&& c == '\u{203A}' ==> o == '>'
                &&& (c as u32) < 0x80 ==> o == c
            },
{
    lemma_normalize_punctuation_in_place(text);
}

impl Stage for NormalizePunctuation {
    open spec fn spec_needs_apply(&self, text: Seq<char>, ctx: &Context) -> bool {
        spec_has_typographic_punctuation(text)
    }

    open spec fn spec_apply(&self, text: Seq<char>, ctx: &Context) -> Seq<char> {
        spec_normalize_punctuation(text)
    }

    open spec fn spec_skip_sound(&self, text: Seq<char>, ctx: &Context) -> bool {
        true
    }

    fn name(&self) -> (r: &'static str)
        ensures
            r@ == "normalize_punctuation"@,
    {
        "normalize_punctuation"
    }

    fn needs_apply(&self, text: &str, ctx: &Context) -> (r: Result<bool, StageError>) {
        let chars = str_chars(text);
        let n = chars.len();
        for i in 0..n
            invariant
                n == chars@.len(),
                chars@ == text@,
                forall|j: int|
                    0 <= j < i ==> !(spec_normalize_punctuation_char(#[trigger] text@[j]) != text@[j]
                        || (text@[j] as u32) == 0),
        {
            let c = chars[i];
            if normalize_punctuation_char(c) != c || (c as u32) == 0 {
                assert(text@[i as int] == c);
                return Ok(true);
            }
        }
        Ok(false)
    }

    fn apply<'a>(&self, text: Cow<'a, str>, ctx: &Context) -> (r: Result<Cow<'a, str>, StageError>) {
        let t: &str = match &text {
            Cow::Borrowed(b) => b,
            Cow::Owned(o) => o.as_str(),
        };
        Ok(Cow::Owned(normalize_punctuation(t)))
    }

    open spec fn spec_safe_skip(&self) -> bool {
        false
    }

    fn safe_skip_approximation(&self) -> (r: bool) {
        false
    }

    proof fn lemma_apply_when_not_needed(&self, text: Seq<char>, ctx: &Context) {
        if !self.spec_needs_apply(text, ctx) {
            assert forall|i: int| 0 <= i < text.len() implies spec_punct_char(#[trigger] text[i]) == seq![text[i]] by {
                assert((text[i] as u32) != 0);
            }
            lemma_normalize_punctuation_identity(text);
        }
    }
}

/// The adapter: maps one character at a time.
pub struct NormalizePunctuationAdapter<I> {
    input: I,
}

impl<I: CharStream> CharStream for NormalizePunctuationAdapter<I> {
    closed spec fn rest(&self) -> Seq<char> {
        spec_normalize_punctuation(self.input.rest())
    }

    closed spec fn stream_inv(&self) -> bool {
        self.input.stream_inv()
    }

    fn next_char(&mut self) -> (r: Option<char>) {
        let ghost all = self.rest();
        loop
            invariant
                self.stream_inv(),
                self.rest() == all,
                all == old(self).rest(),
            decreases self.input.rest().len(),
        {
            let ghost before = self.input.rest();
            let c = match self.input.next_char() {
                Some(c) => c,
                None => {
                    return None;
                },
            };
            assert(before.drop_first() =~= self.input.rest());
            let m = normalize_punctuation_char(c);
            if (m as u32) != 0 {
                assert(all =~= seq![m] + self.rest());
                return Some(m);
            }
            assert(all =~= self.rest());
        }
    }
}

impl NormalizePunctuation {
    /// The adapter over `input`.
    pub fn static_fused_adapter<I: CharStream>(&self, input: I, ctx: &Context) -> (r: NormalizePunctuationAdapter<I>)
        requires
            input.stream_inv(),
        ensures
            r.stream_inv(),
            r.rest() == spec_normalize_punctuation(input.rest()),
    {
        NormalizePunctuationAdapter { input }
    }
}

impl StaticFusableStage for NormalizePunctuation {

    open spec fn spec_sound_everywhere(&self, ctx: &Context) -> bool {
        true
    }

    proof fn lemma_sound_everywhere(&self, text: Seq<char>, ctx: &Context) {
    }
    open spec fn spec_supports_static_fusion(&self) -> bool {
        true
    }

    open spec fn spec_fused(&self, text: Seq<char>, ctx: &Context) -> Seq<char> {
        spec_normalize_punctuation(text)
    }

    open spec fn spec_fused_sound(&self, text: Seq<char>, ctx: &Context) -> bool {
        true
    }

    fn supports_static_fusion(&self) -> (r: bool) {
        true
    }

    fn fused_apply(&self, text: &str, ctx: &Context) -> (r: String) {
        let mut adapter = self.static_fused_adapter(StrChars::new(text), ctx);
        collect_stream(&mut adapter)
    }

    proof fn lemma_fused_is_apply(&self, text: Seq<char>, ctx: &Context) {
    }
}

} // verus!
