//! Diacritic removal: precomposed letters to their base letter, spacing
//! diacritics dropped, by the language's tables.
use vstd::prelude::*;
use std::borrow::Cow;
use crate::context::Context;
use crate::lang::{LangEntry, LangEntryView, lemma_find_base_found, spec_find_base};
use crate::stage::{Stage, StageError, StaticFusableStage, CharStream, StrChars, collect_stream};
use crate::text::{push_char, str_chars};

verus! {

/// Removes diacritics by the language's tables: a precomposed letter becomes
/// its base letter (`é`→`e` in French), a spacing diacritic (Arabic
/// harakat, Hebrew niqqud, ...) is dropped.
#[derive(Debug, Default, Clone, Copy)]
pub struct RemoveDiacritics;

/// What one character becomes.
pub open spec fn spec_undiacritic_char(lang: LangEntryView, c: char) -> Seq<char> {
    match spec_find_base(lang.pre_composed_to_base_map, c) {
        Some(m) => seq![m.to],
        None => if lang.is_spacing_diacritic(c) {
            Seq::empty()
        } else {
            seq![c]
        },
    }
}

/// The text without diacritics.
pub open spec fn spec_remove_diacritics(lang: LangEntryView, s: Seq<char>) -> Seq<char>
    decreases s.len(),
{
    if s.len() == 0 {
        Seq::empty()
    } else {
        spec_undiacritic_char(lang, s[0]) + spec_remove_diacritics(lang, s.drop_first())
    }
}

/// The quick check: some character that the base map changes or that is
/// a spacing diacritic to drop.
pub open spec fn spec_diacritics_needs(lang: LangEntryView, s: Seq<char>) -> bool {
    exists|i: int| 0 <= i < s.len() && spec_undiacritic_char(lang, #[trigger] s[i]) != seq![s[i]]
}

/// Whether removal changes or drops `c`.
fn undiacritic_changes(lang: &LangEntry, c: char) -> (r: bool)
    ensures
        r == (spec_undiacritic_char(lang@, c) != seq![c]),
{
    match lang.apply_pre_composed_to_base_map(c) {
        Some(base) => {
            if base == c {
                false
            } else {
                assert(seq![base][0] == base);
                true
            }
        },
        None => {
            if lang.is_spacing_diacritic(c) {
                assert(Seq::<char>::empty().len() == 0);
                true
            } else {
                false
            }
        },
    }
}

fn undiacritic_push(out: &mut String, lang: &LangEntry, c: char)
    ensures
        final(out)@ == old(out)@ + spec_undiacritic_char(lang@, c),
{
    match lang.apply_pre_composed_to_base_map(c) {
        Some(base) => {
            push_char(out, base);
            assert(old(out)@.push(base) =~= old(out)@ + seq![base]);
        },
        None => {
            if !lang.is_spacing_diacritic(c) {
                push_char(out, c);
                assert(old(out)@.push(c) =~= old(out)@ + seq![c]);
            } else {
                assert(old(out)@ =~= old(out)@ + Seq::<char>::empty());
            }
        },
    }
}

fn remove_diacritics(text: &str, lang: &LangEntry) -> (r: String)
    ensures
        r@ == spec_remove_diacritics(lang@, text@),
{
    let chars = str_chars(text);
    let n = chars.len();
    let mut out = String::new();
    assert(text@.skip(0) =~= text@);
    for i in 0..n
        invariant
            n == chars@.len(),
            chars@ == text@,
            spec_remove_diacritics(lang@, text@) == out@ + spec_remove_diacritics(
                lang@,
                text@.skip(i as int),
            ),
    {
        let ghost o0 = out@;
        assert(text@.skip(i as int).drop_first() =~= text@.skip(i + 1));
        assert(text@.skip(i as int)[0] == chars@[i as int]);
        undiacritic_push(&mut out, lang, chars[i]);
        assert(o0 + spec_remove_diacritics(lang@, text@.skip(i as int)) =~= out@
            + spec_remove_diacritics(lang@, text@.skip(i + 1)));
    }
    assert(spec_remove_diacritics(lang@, text@.skip(n as int)) =~= Seq::<char>::empty());
    assert(out@ + Seq::<char>::empty() =~= out@);
    out
}

proof fn lemma_remove_diacritics_identity(lang: LangEntryView, s: Seq<char>)
    requires
        forall|i: int| 0 <= i < s.len() ==> spec_undiacritic_char(lang, #[trigger] s[i]) == seq![s[i]],
    ensures
        spec_remove_diacritics(lang, s) == s,
    decreases s.len(),
{
    if s.len() > 0 {
        let t = s.drop_first();
        assert(spec_undiacritic_char(lang, s[0]) == seq![s[0]]);
        assert forall|i: int| 0 <= i < t.len() implies spec_undiacritic_char(lang, #[trigger] t[i])
            == seq![t[i]] by {
            assert(t[i] == s[i + 1]);
        }
        lemma_remove_diacritics_identity(lang, t);
        assert(seq![s[0]] + t =~= s);
    }
}

/// Every base letter of the language's precomposed table is left as it is
/// by the removal: it is neither precomposed nor a spacing diacritic itself.
pub open spec fn spec_bases_are_plain(lang: LangEntryView) -> bool {
    forall|i: int|
        0 <= i < lang.pre_composed_to_base_map.len() ==> spec_undiacritic_char(
            lang,
            #[trigger] lang.pre_composed_to_base_map[i].to,
        ) == seq![lang.pre_composed_to_base_map[i].to]
}

proof fn lemma_remove_diacritics_append(lang: LangEntryView, a: Seq<char>, b: Seq<char>)
    ensures
        spec_remove_diacritics(lang, a + b) == spec_remove_diacritics(lang, a)
            + spec_remove_diacritics(lang, b),
    decreases a.len(),
{
    if a.len() == 0 {
        assert(a + b =~= b);
        assert(Seq::<char>::empty() + spec_remove_diacritics(lang, b) =~= spec_remove_diacritics(
            lang,
            b,
        ));
    } else {
        assert((a + b).drop_first() =~= a.drop_first() + b);
        assert((a + b)[0] == a[0]);
        lemma_remove_diacritics_append(lang, a.drop_first(), b);
        assert(spec_undiacritic_char(lang, a[0]) + (spec_remove_diacritics(lang, a.drop_first())
            + spec_remove_diacritics(lang, b)) =~= spec_undiacritic_char(lang, a[0])
            + spec_remove_diacritics(lang, a.drop_first()) + spec_remove_diacritics(lang, b));
    }
}

proof fn lemma_remove_diacritics_single(lang: LangEntryView, d: char)
    ensures
        spec_remove_diacritics(lang, seq![d]) == spec_undiacritic_char(lang, d),
{
    let one = seq![d];
    assert(one.drop_first() =~= Seq::<char>::empty());
    assert(one[0] == d);
    assert(spec_remove_diacritics(lang, one.drop_first()) == Seq::<char>::empty());
    assert(spec_undiacritic_char(lang, d) + Seq::<char>::empty() =~= spec_undiacritic_char(
        lang,
        d,
    ));
}

proof fn lemma_undiacritic_settled(lang: LangEntryView, c: char)
    requires
        spec_bases_are_plain(lang),
    ensures
        spec_remove_diacritics(lang, spec_undiacritic_char(lang, c)) == spec_undiacritic_char(
            lang,
            c,
        ),
{
    let m = lang.pre_composed_to_base_map;
    match spec_find_base(m, c) {
        Some(e) => {
            lemma_find_base_found(m, c);
            let i = choose|i: int| 0 <= i < m.len() && m[i] == e;
            assert(spec_undiacritic_char(lang, m[i].to) == seq![m[i].to]);
            lemma_remove_diacritics_single(lang, e.to);
        },
        None => {
            if !lang.is_spacing_diacritic(c) {
                lemma_remove_diacritics_single(lang, c);
            }
        },
    }
}

/// Removing diacritics a second time changes nothing, for a language whose
/// base letters carry no diacritic of their own.
pub proof fn lemma_remove_diacritics_idempotent(lang: LangEntryView, s: Seq<char>)
    requires
        spec_bases_are_plain(lang),
    ensures
        spec_remove_diacritics(lang, spec_remove_diacritics(lang, s)) == spec_remove_diacritics(
            lang,
            s,
        ),
    decreases s.len(),
{
    if s.len() > 0 {
        let rest = spec_remove_diacritics(lang, s.drop_first());
        lemma_remove_diacritics_idempotent(lang, s.drop_first());
        lemma_remove_diacritics_append(lang, spec_undiacritic_char(lang, s[0]), rest);
        lemma_undiacritic_settled(lang, s[0]);
    }
}

proof fn lemma_remove_diacritics_len(lang: LangEntryView, s: Seq<char>)
    ensures
        spec_remove_diacritics(lang, s).len() <= s.len(),
    decreases s.len(),
{
    if s.len() > 0 {
        lemma_remove_diacritics_len(lang, s.drop_first());
    }
}

/// The quick check is true exactly when removal changes the text, whatever
/// the language's tables hold.
pub proof fn lemma_diacritics_needs_is_exact(lang: LangEntryView, text: Seq<char>)
    ensures
        spec_diacritics_needs(lang, text) == (spec_remove_diacritics(lang, text) != text),
    decreases text.len(),
{
    if text.len() > 0 {
        let c = text[0];
        let t = text.drop_first();
        let h = spec_undiacritic_char(lang, c);
        let r = spec_remove_diacritics(lang, t);
        lemma_diacritics_needs_is_exact(lang, t);
        lemma_remove_diacritics_len(lang, t);
        assert(seq![c] + t =~= text);
        if h == seq![c] {
            if r != t {
                assert((seq![c] + r).drop_first() =~= r);
            } else {
                assert(seq![c] + r =~= text);
            }
            assert(spec_diacritics_needs(lang, text) == spec_diacritics_needs(lang, t)) by {
                if spec_diacritics_needs(lang, t) {
                    let i = choose|i: int|
                        0 <= i < t.len() && spec_undiacritic_char(lang, #[trigger] t[i]) != seq![t[i]];
                    assert(text[i + 1] == t[i]);
                }
                if spec_diacritics_needs(lang, text) {
                    let i = choose|i: int|
                        0 <= i < text.len() && spec_undiacritic_char(lang, #[trigger] text[i])
                            != seq![text[i]];
                    if i > 0 {
                        assert(t[i - 1] == text[i]);
                    }
                }
            }
        } else {
            assert(text[0] == c);
            if h.len() == 0 {
                assert(spec_remove_diacritics(lang, text) =~= r);
            } else {
                assert(h.len() == 1 && h[0] != c);
                assert((h + r)[0] == h[0]);
            }
        }
    } else {
        assert(spec_remove_diacritics(lang, text) =~= text);
    }
}

impl Stage for RemoveDiacritics {
    open spec fn spec_needs_apply(&self, text: Seq<char>, ctx: &Context) -> bool {
        spec_diacritics_needs(ctx.lang_entry@, text)
    }

    open spec fn spec_apply(&self, text: Seq<char>, ctx: &Context) -> Seq<char> {
        spec_remove_diacritics(ctx.lang_entry@, text)
    }

    open spec fn spec_skip_sound(&self, text: Seq<char>, ctx: &Context) -> bool {
        true
    }

    fn name(&self) -> (r: &'static str)
        ensures
            r@ == "remove_diacritics"@,
    {
        "remove_diacritics"
    }

    fn needs_apply(&self, text: &str, ctx: &Context) -> (r: Result<bool, StageError>) {
        let entry = &ctx.lang_entry;
        let chars = str_chars(text);
        let n = chars.len();
        for i in 0..n
            invariant
                n == chars@.len(),
                chars@ == text@,
                entry@ == ctx.lang_entry@,
                forall|j: int|
                    0 <= j < i ==> spec_undiacritic_char(entry@, #[trigger] text@[j]) == seq![text@[j]],
        {
            if undiacritic_changes(entry, chars[i]) {
                assert(spec_undiacritic_char(entry@, text@[i as int]) != seq![text@[i as int]]);
                return Ok(true);
            }
        }
        Ok(false)
    }

    fn apply<'a>(&self, text: Cow<'a, str>, ctx: &Context) -> (r: Result<Cow<'a, str>, StageError>) {
        let t: &str = match &text {
            Cow::Borrowed(b) => b,
            Cow::Owned(o) => o.as_str(),
        };
        Ok(Cow::Owned(remove_diacritics(t, &ctx.lang_entry)))
    }

    open spec fn spec_safe_skip(&self) -> bool {
        false
    }

    fn safe_skip_approximation(&self) -> (r: bool) {
        false
    }

    proof fn lemma_apply_when_not_needed(&self, text: Seq<char>, ctx: &Context) {
        if !self.spec_needs_apply(text, ctx) {
            let lang = ctx.lang_entry@;
            lemma_remove_diacritics_identity(lang, text);
        }
    }
}

/// The adapter: maps or skips one character at a time.
pub struct RemoveDiacriticsAdapter<'a, I> {
    input: I,
    lang: &'a LangEntry,
}

impl<'a, I: CharStream> CharStream for RemoveDiacriticsAdapter<'a, I> {
    closed spec fn rest(&self) -> Seq<char> {
        spec_remove_diacritics(self.lang@, self.input.rest())
    }

    closed spec fn stream_inv(&self) -> bool {
        self.input.stream_inv()
    }

    fn next_char(&mut self) -> (r: Option<char>) {
        let ghost all = self.rest();
        loop
            invariant
                self.stream_inv(),
                self.rest() == all,
                all == old(self).rest(),
            decreases self.input.rest().len(),
        {
            let ghost before = self.input.rest();
            let c = match self.input.next_char() {
                Some(c) => c,
                None => {
                    return None;
                },
            };
            assert(before.drop_first() =~= self.input.rest());
            match self.lang.apply_pre_composed_to_base_map(c) {
                Some(base) => {
                    assert(all =~= seq![base] + self.rest());
                    return Some(base);
                },
                None => {},
            }
            if self.lang.is_spacing_diacritic(c) {
                assert(all =~= self.rest());
                continue;
            }
            assert(all =~= seq![c] + self.rest());
            return Some(c);
        }
    }
}

impl RemoveDiacritics {
    /// The adapter over `input`.
    pub fn static_fused_adapter<'a, I: CharStream>(&self, input: I, ctx: &'a Context) -> (r:
        RemoveDiacriticsAdapter<'a, I>)
        requires
            input.stream_inv(),
        ensures
            r.stream_inv(),
            r.rest() == spec_remove_diacritics(ctx.lang_entry@, input.rest()),
    {
        RemoveDiacriticsAdapter { input, lang: &ctx.lang_entry }
    }
}

impl StaticFusableStage for RemoveDiacritics {

    open spec fn spec_sound_everywhere(&self, ctx: &Context) -> bool {
        true
    }

    proof fn lemma_sound_everywhere(&self, text: Seq<char>, ctx: &Context) {
    }
    open spec fn spec_supports_static_fusion(&self) -> bool {
        true
    }

    open spec fn spec_fused(&self, text: Seq<char>, ctx: &Context) -> Seq<char> {
        spec_remove_diacritics(ctx.lang_entry@, text)
    }

    open spec fn spec_fused_sound(&self, text: Seq<char>, ctx: &Context) -> bool {
        true
    }

    fn supports_static_fusion(&self) -> (r: bool) {
        true
    }

    fn fused_apply(&self, text: &str, ctx: &Context) -> (r: String) {
        let mut adapter = self.static_fused_adapter(StrChars::new(text), ctx);
        collect_stream(&mut adapter)
    }

    proof fn lemma_fused_is_apply(&self, text: Seq<char>, ctx: &Context) {
    }
}

} // verus!
