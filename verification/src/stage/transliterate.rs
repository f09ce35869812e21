//! Transliteration by the language's table (German `ä`→`ae`, Russian to Latin, ...).
use vstd::prelude::*;
use std::borrow::Cow;
use crate::context::Context;
use crate::lang::{LangEntry, LangEntryView, lemma_find_fold_found, spec_find_fold};
use crate::stage::{Stage, StageError, StaticFusableStage, CharStream, StrChars, collect_stream};
use crate::text::{push_char, push_str, str_chars};

verus! {

/// Replaces each character that the language's transliteration table lists
/// by its replacement; every other character is kept.
#[derive(Debug, Default, Clone, Copy)]
pub struct Transliterate;

/// The transliterated text.
pub open spec fn spec_transliterate(lang: LangEntryView, s: Seq<char>) -> Seq<char>
    decreases s.len(),
{
    if s.len() == 0 {
        Seq::empty()
    } else {
        lang.transliterate_chars(s[0]) + spec_transliterate(lang, s.drop_first())
    }
}

/// The quick check: some character that the table replaces by something
/// else.
pub open spec fn spec_transliterate_needs(lang: LangEntryView, s: Seq<char>) -> bool {
    exists|i: int| 0 <= i < s.len() && lang.transliterate_chars(#[trigger] s[i]) != seq![s[i]]
}

/// Whether the table replaces `c` by something else.
fn transliteration_changes(lang: &LangEntry, c: char) -> (r: bool)
    ensures
        r == (lang@.transliterate_chars(c) != seq![c]),
{
    match lang.find_transliterate_map(c) {
        Some(m) => {
            let v = str_chars(m.to);
            if v.len() == 1 && v[0] == c {
                assert(v@ =~= seq![c]);
                false
            } else {
                assert(v@.len() != 1 || v@[0] != c);
                true
            }
        },
        None => false,
    }
}

fn transliterate_push(out: &mut String, lang: &LangEntry, c: char)
    ensures
        final(out)@ == old(out)@ + lang@.transliterate_chars(c),
{
    match lang.find_transliterate_map(c) {
        Some(m) => {
            push_str(out, m.to);
        },
        None => {
            push_char(out, c);
            assert(old(out)@.push(c) =~= old(out)@ + seq![c]);
        },
    }
}

fn transliterate(text: &str, lang: &LangEntry) -> (r: String)
    ensures
        r@ == spec_transliterate(lang@, text@),
{
    let chars = str_chars(text);
    let n = chars.len();
    let mut out = String::new();
    assert(text@.skip(0) =~= text@);
    for i in 0..n
        invariant
            n == chars@.len(),
            chars@ == text@,
            spec_transliterate(lang@, text@) == out@ + spec_transliterate(lang@, text@.skip(i as int)),
    {
        let ghost o0 = out@;
        assert(text@.skip(i as int).drop_first() =~= text@.skip(i + 1));
        assert(text@.skip(i as int)[0] == chars@[i as int]);
        transliterate_push(&mut out, lang, chars[i]);
        assert(o0 + spec_transliterate(lang@, text@.skip(i as int)) =~= out@ + spec_transliterate(
            lang@,
            text@.skip(i + 1),
        ));
    }
    assert(spec_transliterate(lang@, text@.skip(n as int)) =~= Seq::<char>::empty());
    assert(out@ + Seq::<char>::empty() =~= out@);
    out
}

proof fn lemma_transliterate_identity(lang: LangEntryView, s: Seq<char>)
    requires
        forall|i: int| 0 <= i < s.len() ==> lang.transliterate_chars(#[trigger] s[i]) == seq![s[i]],
    ensures
        spec_transliterate(lang, s) == s,
    decreases s.len(),
{
    if s.len() > 0 {
        let t = s.drop_first();
        assert(lang.transliterate_chars(s[0]) == seq![s[0]]);
        assert forall|i: int| 0 <= i < t.len() implies lang.transliterate_chars(#[trigger] t[i])
            == seq![t[i]] by {
            assert(t[i] == s[i + 1]);
        }
        lemma_transliterate_identity(lang, t);
        assert(seq![s[0]] + t =~= s);
    }
}

/// Every character that the language's table writes is left as it is by
/// the table: no replacement holds a character that is replaced again.
pub open spec fn spec_replacements_are_plain(lang: LangEntryView) -> bool {
    forall|i: int, k: int|
        0 <= i < lang.transliterate_map.len() && 0 <= k < lang.transliterate_map[i].to@.len()
            ==> lang.transliterate_chars(#[trigger] lang.transliterate_map[i].to@[k]) == seq![
            lang.transliterate_map[i].to@[k],
        ]
}

proof fn lemma_transliterate_append(lang: LangEntryView, a: Seq<char>, b: Seq<char>)
    ensures
        spec_transliterate(lang, a + b) == spec_transliterate(lang, a) + spec_transliterate(lang, b),
    decreases a.len(),
{
    if a.len() == 0 {
        assert(a + b =~= b);
        assert(Seq::<char>::empty() + spec_transliterate(lang, b) =~= spec_transliterate(lang, b));
    } else {
        assert((a + b).drop_first() =~= a.drop_first() + b);
        assert((a + b)[0] == a[0]);
        lemma_transliterate_append(lang, a.drop_first(), b);
        assert(lang.transliterate_chars(a[0]) + (spec_transliterate(lang, a.drop_first())
            + spec_transliterate(lang, b)) =~= lang.transliterate_chars(a[0]) + spec_transliterate(
            lang,
            a.drop_first(),
        ) + spec_transliterate(lang, b));
    }
}

proof fn lemma_transliterate_char_settled(lang: LangEntryView, c: char)
    requires
        spec_replacements_are_plain(lang),
    ensures
        spec_transliterate(lang, lang.transliterate_chars(c)) == lang.transliterate_chars(c),
{
    let m = lang.transliterate_map;
    match spec_find_fold(m, c) {
        Some(e) => {
            lemma_find_fold_found(m, c);
            let i = choose|i: int| 0 <= i < m.len() && m[i] == e;
            let out = e.to@;
            assert forall|k: int| 0 <= k < out.len() implies lang.transliterate_chars(
                #[trigger] out[k],
            ) == seq![out[k]] by {
                assert(out[k] == m[i].to@[k]);
            }
            lemma_transliterate_identity(lang, out);
        },
        None => {
            let one = seq![c];
            assert(one.drop_first() =~= Seq::<char>::empty());
            assert(one[0] == c);
            assert(spec_transliterate(lang, one.drop_first()) == Seq::<char>::empty());
            assert(one + Seq::<char>::empty() =~= one);
        },
    }
}

/// Transliterating a second time changes nothing, for a language whose
/// table writes no character that it replaces.
pub proof fn lemma_transliterate_idempotent(lang: LangEntryView, s: Seq<char>)
    requires
        spec_replacements_are_plain(lang),
    ensures
        spec_transliterate(lang, spec_transliterate(lang, s)) == spec_transliterate(lang, s),
    decreases s.len(),
{
    if s.len() > 0 {
        let rest = spec_transliterate(lang, s.drop_first());
        lemma_transliterate_idempotent(lang, s.drop_first());
        lemma_transliterate_append(lang, lang.transliterate_chars(s[0]), rest);
        lemma_transliterate_char_settled(lang, s[0]);
    }
}

impl Stage for Transliterate {
    open spec fn spec_needs_apply(&self, text: Seq<char>, ctx: &Context) -> bool {
        spec_transliterate_needs(ctx.lang_entry@, text)
    }

    open spec fn spec_apply(&self, text: Seq<char>, ctx: &Context) -> Seq<char> {
        spec_transliterate(ctx.lang_entry@, text)
    }

    open spec fn spec_skip_sound(&self, text: Seq<char>, ctx: &Context) -> bool {
        true
    }

    fn name(&self) -> (r: &'static str)
        ensures
            r@ == "transliterate"@,
    {
        "transliterate"
    }

    fn needs_apply(&self, text: &str, ctx: &Context) -> (r: Result<bool, StageError>) {
        let entry = &ctx.lang_entry;
        let chars = str_chars(text);
        let n = chars.len();
        for i in 0..n
            invariant
                n == chars@.len(),
                chars@ == text@,
                entry@ == ctx.lang_entry@,
                forall|j: int|
                    0 <= j < i ==> entry@.transliterate_chars(#[trigger] text@[j]) == seq![text@[j]],
        {
            if transliteration_changes(entry, chars[i]) {
                assert(entry@.transliterate_chars(text@[i as int]) != seq![text@[i as int]]);
                return Ok(true);
            }
        }
        Ok(false)
    }

    fn apply<'a>(&self, text: Cow<'a, str>, ctx: &Context) -> (r: Result<Cow<'a, str>, StageError>) {
        let t: &str = match &text {
            Cow::Borrowed(b) => b,
            Cow::Owned(o) => o.as_str(),
        };
        Ok(Cow::Owned(transliterate(t, &ctx.lang_entry)))
    }

    open spec fn spec_safe_skip(&self) -> bool {
        false
    }

    fn safe_skip_approximation(&self) -> (r: bool) {
        false
    }

    proof fn lemma_apply_when_not_needed(&self, text: Seq<char>, ctx: &Context) {
        if !self.spec_needs_apply(text, ctx) {
            let lang = ctx.lang_entry@;
            assert forall|i: int| 0 <= i < text.len() implies lang.transliterate_chars(#[trigger] text[i])
                == seq![text[i]] by {
            }
            lemma_transliterate_identity(lang, text);
        }
    }
}

/// The adapter: one replacement at a time, the rest of a longer replacement
/// held back.
pub struct TransliterateAdapter<'a, I> {
    input: I,
    lang: &'a LangEntry,
    pending: Vec<char>,
    pending_idx: usize,
}

impl<'a, I: CharStream> CharStream for TransliterateAdapter<'a, I> {
    closed spec fn rest(&self) -> Seq<char> {
        self.pending@.skip(self.pending_idx as int) + spec_transliterate(self.lang@, self.input.rest())
    }

    closed spec fn stream_inv(&self) -> bool {
        self.input.stream_inv() && self.pending_idx <= self.pending@.len()
    }

    fn next_char(&mut self) -> (r: Option<char>) {
        if self.pending_idx < self.pending.len() {
            let c = self.pending[self.pending_idx];
            assert(self.pending@.skip(self.pending_idx as int) =~= seq![c] + self.pending@.skip(
                self.pending_idx + 1,
            ));
            self.pending_idx = self.pending_idx + 1;
            return Some(c);
        }
        let ghost all = self.rest();
        assert(self.pending@.skip(self.pending_idx as int) =~= Seq::<char>::empty());
        loop
            invariant
                self.stream_inv(),
                self.pending_idx == self.pending@.len(),
                self.rest() == all,
                all == old(self).rest(),
            decreases self.input.rest().len(),
        {
            let ghost before = self.input.rest();
            let c = match self.input.next_char() {
                Some(c) => c,
                None => {
                    return None;
                },
            };
            assert(before.drop_first() =~= self.input.rest());
            match self.lang.find_transliterate_map(c) {
                Some(m) => {
                    let to = str_chars(m.to);
                    if to.len() == 0 {
                        self.pending = Vec::new();
                        self.pending_idx = 0;
                        assert(self.pending@.skip(0) =~= Seq::<char>::empty());
                        assert(self.rest() =~= all);
                        continue;
                    }
                    let first = to[0];
                    self.pending = to;
                    self.pending_idx = 1;
                    assert(m.to@ =~= seq![first] + self.pending@.skip(1));
                    assert(self.rest() =~= all.drop_first());
                    return Some(first);
                },
                None => {
                    return Some(c);
                },
            }
        }
    }
}

impl Transliterate {
    /// The adapter over `input`.
    pub fn static_fused_adapter<'a, I: CharStream>(&self, input: I, ctx: &'a Context) -> (r:
        TransliterateAdapter<'a, I>)
        requires
            input.stream_inv(),
        ensures
            r.stream_inv(),
            r.rest() == spec_transliterate(ctx.lang_entry@, input.rest()),
    {
        let r = TransliterateAdapter {
            input,
            lang: &ctx.lang_entry,
            pending: Vec::new(),
            pending_idx: 0,
        };
        assert(r.pending@.skip(0) =~= Seq::<char>::empty());
        assert(r.rest() =~= spec_transliterate(ctx.lang_entry@, r.input.rest()));
        r
    }
}

impl StaticFusableStage for Transliterate {

    open spec fn spec_sound_everywhere(&self, ctx: &Context) -> bool {
        true
    }

    proof fn lemma_sound_everywhere(&self, text: Seq<char>, ctx: &Context) {
    }
    open spec fn spec_supports_static_fusion(&self) -> bool {
        true
    }

    open spec fn spec_fused(&self, text: Seq<char>, ctx: &Context) -> Seq<char> {
        spec_transliterate(ctx.lang_entry@, text)
    }

    open spec fn spec_fused_sound(&self, text: Seq<char>, ctx: &Context) -> bool {
        true
    }

    fn supports_static_fusion(&self) -> (r: bool) {
        true
    }

    fn fused_apply(&self, text: &str, ctx: &Context) -> (r: String) {
        let mut adapter = self.static_fused_adapter(StrChars::new(text), ctx);
        collect_stream(&mut adapter)
    }

    proof fn lemma_fused_is_apply(&self, text: Seq<char>, ctx: &Context) {
    }
}

} // verus!
