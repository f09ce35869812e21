//! Case folding for caseless matching: language folds (`ß`→`ss`), the
//! language's case map, then full Unicode lowercasing.
use vstd::prelude::*;
use std::borrow::Cow;
use crate::context::Context;
use crate::lang::{
    Lang, LangEntry, LangEntryView, spec_find_fold, spec_find_case, CaseMap, lemma_find_fold_found,
};
use crate::lang::data::{spec_lang_entry, lemma_builtin_tables_consistent};
use crate::stage::{Stage, StageError, StaticFusableStage, CharStream, StrChars, collect_stream};
use crate::text::{
    push_char, push_str, str_chars, spec_lowercase_full, char_to_lowercase, spec_all_ascii,
    spec_ascii_lower,
};

verus! {

/// Case folding for search: each character becomes its language fold
/// (`ß`→`ss`), else its language case mapping (`İ`→`i` in Turkish), else its
/// full Unicode lowercase. Languages with peek-ahead fold a pair of
/// characters as a unit first.
#[derive(Debug, Default, Clone, Copy)]
pub struct CaseFold;

/// Every character folded, without peek-ahead.
pub open spec fn spec_fold_plain(lang: LangEntryView, s: Seq<char>) -> Seq<char>
    decreases s.len(),
{
    if s.len() == 0 {
        Seq::empty()
    } else {
        lang.fold_chars(s[0]) + spec_fold_plain(lang, s.drop_first())
    }
}

/// The character after position `i`, if any.
pub open spec fn spec_next_of(s: Seq<char>, i: int) -> Option<char> {
    if i + 1 < s.len() {
        Some(s[i + 1])
    } else {
        None
    }
}

/// Folding with peek-ahead: a pair with a context-sensitive fold is folded
/// as a unit.
pub open spec fn spec_fold_peek(lang: LangEntryView, s: Seq<char>) -> Seq<char>
    decreases s.len(),
{
    if s.len() == 0 {
        Seq::empty()
    } else {
        match lang.peek_fold(s[0], spec_next_of(s, 0)) {
            Some(t) => t + spec_fold_peek(lang, s.drop_first().drop_first()),
            None => lang.fold_chars(s[0]) + spec_fold_peek(lang, s.drop_first()),
        }
    }
}

/// The folded text.
pub open spec fn spec_case_fold(lang: LangEntryView, s: Seq<char>) -> Seq<char> {
    if lang.requires_peek_ahead {
        spec_fold_peek(lang, s)
    } else {
        spec_fold_plain(lang, s)
    }
}

/// The quick check: a character with a fold, a case mapping or a changing
/// lowercase, or a pair with a context-sensitive fold.
pub open spec fn spec_case_fold_needs(lang: LangEntryView, s: Seq<char>) -> bool {
    ||| exists|i: int| 0 <= i < s.len() && lang.needs_case_fold(#[trigger] s[i])
    ||| lang.requires_peek_ahead && exists|i: int|
        0 <= i < s.len() && (#[trigger] lang.peek_fold(s[i], spec_next_of(s, i))) is Some
}

/// Appends the fold of one character.
fn push_fold(out: &mut String, lang: &LangEntry, c: char)
    ensures
        final(out)@ == old(out)@ + lang@.fold_chars(c),
{
    match lang.find_fold_map(c) {
        Some(m) => {
            push_str(out, m.to);
        },
        None => match lang.find_case_map(c) {
            Some(m) => {
                push_char(out, m.to);
                assert(old(out)@.push(m.to) =~= old(out)@ + seq![m.to]);
            },
            None => {
                let lower = char_to_lowercase(c);
                let ghost o0 = out@;
                let n = lower.len();
                for j in 0..n
                    invariant
                        n == lower@.len(),
                        lower@ == spec_lowercase_full(c),
                        out@ == o0 + lower@.take(j as int),
                {
                    push_char(out, lower[j]);
                    assert(lower@.take(j + 1) =~= lower@.take(j as int).push(lower@[j as int]));
                }
                assert(lower@.take(n as int) =~= lower@);
            },
        },
    }
}

/// Folding without peek-ahead.
pub(crate) fn fold_plain(text: &str, lang: &LangEntry) -> (r: String)
    ensures
        r@ == spec_fold_plain(lang@, text@),
{
    let chars = str_chars(text);
    let n = chars.len();
    let mut out = String::new();
    assert(text@.skip(0) =~= text@);
    for i in 0..n
        invariant
            n == chars@.len(),
            chars@ == text@,
            spec_fold_plain(lang@, text@) == out@ + spec_fold_plain(lang@, text@.skip(i as int)),
    {
        let ghost o0 = out@;
        assert(text@.skip(i as int).drop_first() =~= text@.skip(i + 1));
        push_fold(&mut out, lang, chars[i]);
        assert(o0 + spec_fold_plain(lang@, text@.skip(i as int)) =~= out@ + spec_fold_plain(
            lang@,
            text@.skip(i + 1),
        ));
    }
    assert(spec_fold_plain(lang@, text@.skip(n as int)) =~= Seq::<char>::empty());
    assert(out@ + Seq::<char>::empty() =~= out@);
    out
}

/// Folding with peek-ahead.
pub(crate) fn apply_with_peek_ahead(text: &str, lang: &LangEntry) -> (r: String)
    ensures
        r@ == spec_fold_peek(lang@, text@),
{
    let chars = str_chars(text);
    let n = chars.len();
    let mut out = String::new();
    let mut i: usize = 0;
    assert(text@.skip(0) =~= text@);
    while i < n
        invariant
            i <= n,
            n == chars@.len(),
            chars@ == text@,
            spec_fold_peek(lang@, text@) == out@ + spec_fold_peek(lang@, text@.skip(i as int)),
        decreases n - i,
    {
        let ghost o0 = out@;
        let ghost rest = text@.skip(i as int);
        assert(rest.drop_first() =~= text@.skip(i + 1));
        assert(rest[0] == chars@[i as int]);
        let c = chars[i];
        let next = if i + 1 < n {
            Some(chars[i + 1])
        } else {
            None
        };
        assert(next == spec_next_of(rest, 0));
        match lang.get_peek_fold(c, next) {
            Some(target) => {
                push_str(&mut out, target);
                assert(rest.drop_first().drop_first() =~= text@.skip(i + 2));
                assert(o0 + spec_fold_peek(lang@, rest) =~= out@ + spec_fold_peek(
                    lang@,
                    text@.skip(i + 2),
                ));
                i = i + 2;
            },
            None => {
                push_fold(&mut out, lang, c);
                assert(o0 + spec_fold_peek(lang@, rest) =~= out@ + spec_fold_peek(
                    lang@,
                    text@.skip(i + 1),
                ));
                i = i + 1;
            },
        }
    }
    assert(spec_fold_peek(lang@, text@.skip(i as int)) =~= Seq::<char>::empty());
    assert(out@ + Seq::<char>::empty() =~= out@);
    out
}

pub(crate) proof fn lemma_fold_plain_identity(lang: LangEntryView, s: Seq<char>)
    requires
        forall|i: int| 0 <= i < s.len() ==> lang.fold_chars(#[trigger] s[i]) == seq![s[i]],
    ensures
        spec_fold_plain(lang, s) == s,
    decreases s.len(),
{
    if s.len() > 0 {
        assert forall|i: int| 0 <= i < s.drop_first().len() implies lang.fold_chars(
            #[trigger] s.drop_first()[i],
        ) == seq![s.drop_first()[i]] by {
            assert(s.drop_first()[i] == s[i + 1]);
        }
        lemma_fold_plain_identity(lang, s.drop_first());
        assert(lang.fold_chars(s[0]) == seq![s[0]]);
        assert(seq![s[0]] + s.drop_first() =~= s);
    }
}

pub(crate) proof fn lemma_fold_peek_identity(lang: LangEntryView, s: Seq<char>)
    requires
        forall|i: int| 0 <= i < s.len() ==> lang.fold_chars(#[trigger] s[i]) == seq![s[i]],
        forall|i: int| 0 <= i < s.len() ==> (#[trigger] lang.peek_fold(s[i], spec_next_of(s, i))) is None,
    ensures
        spec_fold_peek(lang, s) == s,
    decreases s.len(),
{
    if s.len() > 0 {
        let t = s.drop_first();
        assert(lang.peek_fold(s[0], spec_next_of(s, 0)) is None);
        assert forall|i: int| 0 <= i < t.len() implies lang.fold_chars(#[trigger] t[i]) == seq![t[i]] by {
            assert(t[i] == s[i + 1]);
        }
        assert forall|i: int| 0 <= i < t.len() implies (#[trigger] lang.peek_fold(t[i], spec_next_of(t, i))) is None by {
            assert(t[i] == s[i + 1]);
            assert(spec_next_of(t, i) == spec_next_of(s, i + 1));
            assert(lang.peek_fold(s[i + 1], spec_next_of(s, i + 1)) is None);
        }
        lemma_fold_peek_identity(lang, t);
        assert(seq![s[0]] + t =~= s);
    }
}

/// Where no pair has a context-sensitive fold, folding with peek-ahead is
/// folding character by character.
proof fn lemma_fold_peek_is_plain(lang: LangEntryView, s: Seq<char>)
    requires
        forall|i: int| 0 <= i < s.len() ==> (#[trigger] lang.peek_fold(s[i], spec_next_of(s, i))) is None,
    ensures
        spec_fold_peek(lang, s) == spec_fold_plain(lang, s),
    decreases s.len(),
{
    if s.len() > 0 {
        let t = s.drop_first();
        assert(lang.peek_fold(s[0], spec_next_of(s, 0)) is None);
        assert forall|i: int| 0 <= i < t.len() implies (#[trigger] lang.peek_fold(t[i], spec_next_of(t, i))) is None by {
            assert(t[i] == s[i + 1]);
            assert(spec_next_of(t, i) == spec_next_of(s, i + 1));
            assert(lang.peek_fold(s[i + 1], spec_next_of(s, i + 1)) is None);
        }
        lemma_fold_peek_is_plain(lang, t);
    }
}

/// The character's lowercase is itself, or starts with another character.
pub open spec fn spec_lower_moves_first(c: char) -> bool {
    spec_lowercase_full(c) == seq![c] || (spec_lowercase_full(c).len() > 0
        && spec_lowercase_full(c)[0] != c)
}

/// The character's fold is itself, or starts with another character.
pub open spec fn spec_fold_moves_first(lang: LangEntryView, c: char) -> bool {
    lang.fold_chars(c) == seq![c] || (lang.fold_chars(c).len() > 0 && lang.fold_chars(c)[0] != c)
}

pub(crate) proof fn lemma_find_case_entry(m: Seq<CaseMap>, c: char)
    ensures
        spec_find_case(m, c) matches Some(x) ==> x.from == c && exists|i: int|
            0 <= i < m.len() && #[trigger] m[i] == x,
    decreases m.len(),
{
    if m.len() > 0 && m[0].from != c {
        lemma_find_case_entry(m.drop_first(), c);
        if let Some(x) = spec_find_case(m, c) {
            let i = choose|i: int| 0 <= i < m.drop_first().len() && #[trigger] m.drop_first()[i] == x;
            assert(m[i + 1] == x);
        }
    } else if m.len() > 0 {
        assert(m[0] == m[0]);
    }
}

/// With built-in tables, a character needs folding exactly when its fold
/// is another text, and then the fold starts with another character, given
/// that its lowercase does.
proof fn lemma_builtin_fold_char(lang: Lang, c: char)
    requires
        spec_lower_moves_first(c),
    ensures
        spec_fold_moves_first(spec_lang_entry(lang), c),
        spec_lang_entry(lang).needs_case_fold(c) == (spec_lang_entry(lang).fold_chars(c) != seq![c]),
{
    let e = spec_lang_entry(lang);
    lemma_builtin_tables_consistent(lang);
    lemma_find_fold_found(e.fold_map, c);
    lemma_find_case_entry(e.case_map, c);
    if let Some(x) = spec_find_fold(e.fold_map, c) {
        let i = choose|i: int| 0 <= i < e.fold_map.len() && #[trigger] e.fold_map[i] == x;
        assert(e.fold_map[i].to@.len() > 0 && e.fold_map[i].to@[0] != e.fold_map[i].from);
        assert(x.to@[0] != c);
    } else if let Some(x) = spec_find_case(e.case_map, c) {
        let i = choose|i: int| 0 <= i < e.case_map.len() && #[trigger] e.case_map[i] == x;
        assert(e.case_map[i].to != e.case_map[i].from);
        assert(seq![x.to][0] == x.to);
    }
}

/// Folding character by character leaves a text as it is only where every
/// character folds to itself.
proof fn lemma_fold_plain_unchanged(lang: LangEntryView, s: Seq<char>)
    requires
        forall|i: int| 0 <= i < s.len() ==> spec_fold_moves_first(lang, #[trigger] s[i]),
        spec_fold_plain(lang, s) == s,
    ensures
        forall|i: int| 0 <= i < s.len() ==> lang.fold_chars(#[trigger] s[i]) == seq![s[i]],
    decreases s.len(),
{
    if s.len() > 0 {
        let f = lang.fold_chars(s[0]);
        let t = s.drop_first();
        let r = spec_fold_plain(lang, t);
        assert(spec_fold_moves_first(lang, s[0]));
        assert(s == f + r);
        if f != seq![s[0]] {
            assert((f + r)[0] == f[0]);
        }
        assert(r =~= (f + r).drop_first());
        assert(r =~= t);
        assert forall|i: int| 0 <= i < t.len() implies spec_fold_moves_first(lang, #[trigger] t[i]) by {
            assert(t[i] == s[i + 1]);
        }
        lemma_fold_plain_unchanged(lang, t);
        assert forall|i: int| 0 <= i < s.len() implies lang.fold_chars(#[trigger] s[i]) == seq![s[i]] by {
            if i > 0 {
                assert(s[i] == t[i - 1]);
            }
        }
    }
}

impl CaseFold {
    /// With a built-in language's rules, the quick check is true exactly when
    /// folding changes the text, for a text each of whose characters
    /// lowercases to itself or to something that starts with another
    /// character, which holds of every ASCII text. (Which characters the
    /// Unicode lowercase mapping keeps in first place is not restated here.)
    pub proof fn lemma_case_fold_needs_is_exact(lang: Lang, text: Seq<char>)
        ensures
            (forall|i: int| 0 <= i < text.len() ==> spec_lower_moves_first(#[trigger] text[i]))
                ==> (spec_case_fold_needs(spec_lang_entry(lang), text) == (spec_case_fold(
                spec_lang_entry(lang),
                text,
            ) != text)),
            spec_all_ascii(text) ==> (spec_case_fold_needs(spec_lang_entry(lang), text) == (
            spec_case_fold(spec_lang_entry(lang), text) != text)),
    {
        let e = spec_lang_entry(lang);
        lemma_builtin_tables_consistent(lang);
        if spec_all_ascii(text) {
            assert forall|i: int| 0 <= i < text.len() implies spec_lower_moves_first(
                #[trigger] text[i],
            ) by {
                assert((text[i] as u32) < 0x80);
                assert(spec_lowercase_full(text[i]) == seq![spec_ascii_lower(text[i])]);
            }
        }
        if forall|i: int| 0 <= i < text.len() ==> spec_lower_moves_first(#[trigger] text[i]) {
            assert forall|i: int| 0 <= i < text.len() implies spec_fold_moves_first(
                e,
                #[trigger] text[i],
            ) && e.needs_case_fold(text[i]) == (e.fold_chars(text[i]) != seq![text[i]]) by {
                lemma_builtin_fold_char(lang, text[i]);
            }
            if spec_case_fold_needs(e, text) {
                let i = choose|i: int| 0 <= i < text.len() && e.needs_case_fold(#[trigger] text[i]);
                if spec_case_fold(e, text) == text {
                    lemma_fold_plain_unchanged(e, text);
                }
            } else {
                assert forall|i: int| 0 <= i < text.len() implies e.fold_chars(#[trigger] text[i])
                    == seq![text[i]] by {
                    assert(!e.needs_case_fold(text[i]));
                }
                lemma_fold_plain_identity(e, text);
            }
        }
    }
}

impl Stage for CaseFold {
    open spec fn spec_needs_apply(&self, text: Seq<char>, ctx: &Context) -> bool {
        spec_case_fold_needs(ctx.lang_entry@, text)
    }

    open spec fn spec_apply(&self, text: Seq<char>, ctx: &Context) -> Seq<char> {
        spec_case_fold(ctx.lang_entry@, text)
    }

    open spec fn spec_skip_sound(&self, text: Seq<char>, ctx: &Context) -> bool {
        true
    }

    fn name(&self) -> (r: &'static str)
        ensures
            r@ == "case_fold"@,
    {
        "case_fold"
    }

    fn needs_apply(&self, text: &str, ctx: &Context) -> (r: Result<bool, StageError>) {
        let chars = str_chars(text);
        let n = chars.len();
        for i in 0..n
            invariant
                n == chars@.len(),
                chars@ == text@,
                forall|j: int| 0 <= j < i ==> !ctx.lang_entry@.needs_case_fold(#[trigger] text@[j]),
        {
            if ctx.lang_entry.needs_case_fold(chars[i]) {
                assert(ctx.lang_entry@.needs_case_fold(text@[i as int]));
                return Ok(true);
            }
        }
        if ctx.lang_entry.requires_peek_ahead() {
            for i in 0..n
                invariant
                    n == chars@.len(),
                    chars@ == text@,
                    ctx.lang_entry@.requires_peek_ahead,
                    forall|j: int|
                        0 <= j < i ==> (#[trigger] ctx.lang_entry@.peek_fold(
                            text@[j],
                            spec_next_of(text@, j),
                        )) is None,
            {
                let next = if i + 1 < n {
                    Some(chars[i + 1])
                } else {
                    None
                };
                assert(next == spec_next_of(text@, i as int));
                if ctx.lang_entry.get_peek_fold(chars[i], next).is_some() {
                    assert(ctx.lang_entry@.peek_fold(text@[i as int], spec_next_of(text@, i as int))
                        is Some);
                    return Ok(true);
                }
            }
        }
        Ok(false)
    }

    fn apply<'a>(&self, text: Cow<'a, str>, ctx: &Context) -> (r: Result<Cow<'a, str>, StageError>) {
        let t: &str = match &text {
            Cow::Borrowed(b) => b,
            Cow::Owned(o) => o.as_str(),
        };
        if ctx.lang_entry.requires_peek_ahead() {
            return Ok(Cow::Owned(apply_with_peek_ahead(t, &ctx.lang_entry)));
        }
        Ok(Cow::Owned(fold_plain(t, &ctx.lang_entry)))
    }

    open spec fn spec_safe_skip(&self) -> bool {
        false
    }

    fn safe_skip_approximation(&self) -> (r: bool) {
        false
    }

    proof fn lemma_apply_when_not_needed(&self, text: Seq<char>, ctx: &Context) {
        if !self.spec_needs_apply(text, ctx) {
            let lang = ctx.lang_entry@;
            assert forall|i: int| 0 <= i < text.len() implies lang.fold_chars(#[trigger] text[i])
                == seq![text[i]] by {
                assert(!lang.needs_case_fold(text[i]));
            }
            if lang.requires_peek_ahead {
                lemma_fold_peek_identity(lang, text);
            } else {
                lemma_fold_plain_identity(lang, text);
            }
        }
    }
}

/// The folding adapter: one fold at a time, the rest of a multi-character
/// fold held back.
pub struct CaseFoldAdapter<'a, I> {
    input: I,
    lang: &'a LangEntry,
    pending: Vec<char>,
    pending_idx: usize,
}

impl<'a, I: CharStream> CharStream for CaseFoldAdapter<'a, I> {
    closed spec fn rest(&self) -> Seq<char> {
        self.pending@.skip(self.pending_idx as int) + spec_fold_plain(self.lang@, self.input.rest())
    }

    closed spec fn stream_inv(&self) -> bool {
        self.input.stream_inv() && self.pending_idx <= self.pending@.len()
    }

    fn next_char(&mut self) -> (r: Option<char>) {
        if self.pending_idx < self.pending.len() {
            let c = self.pending[self.pending_idx];
            assert(self.pending@.skip(self.pending_idx as int) =~= seq![c] + self.pending@.skip(
                self.pending_idx + 1,
            ));
            self.pending_idx = self.pending_idx + 1;
            return Some(c);
        }
        let ghost all = self.rest();
        assert(self.pending@.skip(self.pending_idx as int) =~= Seq::<char>::empty());
        loop
            invariant
                self.stream_inv(),
                self.pending_idx == self.pending@.len(),
                self.rest() == all,
                all == old(self).rest(),
            decreases self.input.rest().len(),
        {
            let ghost before = self.input.rest();
            let c = match self.input.next_char() {
                Some(c) => c,
                None => {
                    return None;
                },
            };
            assert(before.drop_first() =~= self.input.rest());
            match self.lang.find_fold_map(c) {
                Some(m) => {
                    let to = str_chars(m.to);
                    if to.len() == 0 {
                        self.pending = Vec::new();
                        self.pending_idx = 0;
                        assert(self.pending@.skip(0) =~= Seq::<char>::empty());
                        assert(self.rest() =~= all);
                        continue;
                    }
                    let first = to[0];
                    self.pending = to;
                    self.pending_idx = 1;
                    assert(m.to@ =~= seq![first] + self.pending@.skip(1));
                    assert(self.rest() =~= all.drop_first());
                    return Some(first);
                },
                None => {},
            }
            match self.lang.find_case_map(c) {
                Some(m) => {
                    return Some(m.to);
                },
                None => {},
            }
            let lower = char_to_lowercase(c);
            let first = lower[0];
            self.pending = lower;
            self.pending_idx = 1;
            assert(spec_lowercase_full(c) =~= seq![first] + self.pending@.skip(1));
            assert(self.rest() =~= all.drop_first());
            return Some(first);
        }
    }
}

impl CaseFold {
    /// The adapter over `input`.
    pub fn static_fused_adapter<'a, I: CharStream>(&self, input: I, ctx: &'a Context) -> (r:
        CaseFoldAdapter<'a, I>)
        requires
            input.stream_inv(),
        ensures
            r.stream_inv(),
            r.rest() == spec_fold_plain(ctx.lang_entry@, input.rest()),
    {
        let r = CaseFoldAdapter { input, lang: &ctx.lang_entry, pending: Vec::new(), pending_idx: 0 };
        assert(r.pending@.skip(0) =~= Seq::<char>::empty());
        assert(r.rest() =~= spec_fold_plain(ctx.lang_entry@, r.input.rest()));
        r
    }
}

impl StaticFusableStage for CaseFold {

    open spec fn spec_sound_everywhere(&self, ctx: &Context) -> bool {
        !ctx.lang_entry@.requires_peek_ahead
    }

    proof fn lemma_sound_everywhere(&self, text: Seq<char>, ctx: &Context) {
    }
    open spec fn spec_supports_static_fusion(&self) -> bool {
        true
    }

    open spec fn spec_fused(&self, text: Seq<char>, ctx: &Context) -> Seq<char> {
        spec_fold_plain(ctx.lang_entry@, text)
    }

    /// The adapter folds character by character, so it agrees with `apply`
    /// unless the language peeks ahead and the text holds a pair with a
    /// context-sensitive fold.
    open spec fn spec_fused_sound(&self, text: Seq<char>, ctx: &Context) -> bool {
        ctx.lang_entry@.requires_peek_ahead ==> forall|i: int|
            0 <= i < text.len() ==> (#[trigger] ctx.lang_entry@.peek_fold(
                text[i],
                spec_next_of(text, i),
            )) is None
    }

    fn supports_static_fusion(&self) -> (r: bool) {
        true
    }

    fn fused_apply(&self, text: &str, ctx: &Context) -> (r: String) {
        let mut adapter = self.static_fused_adapter(StrChars::new(text), ctx);
        collect_stream(&mut adapter)
    }

    proof fn lemma_fused_is_apply(&self, text: Seq<char>, ctx: &Context) {
        if ctx.lang_entry@.requires_peek_ahead {
            lemma_fold_peek_is_plain(ctx.lang_entry@, text);
        }
    }
}

} // verus!
