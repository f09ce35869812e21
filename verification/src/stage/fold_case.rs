//! Case folding by the language's fold map, case map and Unicode
//! lowercasing, with peek-ahead for languages that fold character pairs,
//! and a character-map path for languages whose folds are all one-to-one.
use vstd::prelude::*;
use std::borrow::Cow;
use crate::context::Context;
use crate::lang::{Lang, LangEntry, LangEntryView, spec_find_fold};
use crate::lang::data::{spec_lang_entry, lemma_builtin_tables_consistent};
use crate::process::cow_str;
use crate::stage::{CharMapper, Stage, StageError, StaticFusableStage};
use crate::stage::case_fold::{
    apply_with_peek_ahead, fold_plain, lemma_fold_peek_identity, lemma_fold_plain_identity,
    spec_case_fold, spec_next_of,
};
use crate::text::{
    char_to_lowercase, lowercase_first, push_char, spec_lowercase_first, str_eq,
    spec_lowercase_full, str_chars,
};

verus! {

/// Case folding: the language's fold map first, then its case map, then
/// full Unicode lowercasing; a text it leaves alone comes back as it came.
#[derive(Debug, Default, Clone, Copy)]
pub struct FoldCase;

/// The folded text: each character becomes its language fold, else its
/// language case mapping, else its full lowercase; languages with
/// peek-ahead fold a pair of characters as a unit first.
pub open spec fn spec_fold_case(lang: LangEntryView, s: Seq<char>) -> Seq<char> {
    spec_case_fold(lang, s)
}

/// The quick check: a character with a fold, a case mapping or a changing
/// lowercase, or a pair with a context-sensitive fold.
pub open spec fn spec_fold_case_needs(lang: LangEntryView, s: Seq<char>) -> bool {
    ||| exists|i: int| 0 <= i < s.len() && lang.needs_case_fold(#[trigger] s[i])
    ||| lang.requires_peek_ahead && exists|i: int|
        0 <= i < s.len() && (#[trigger] lang.peek_fold(s[i], spec_next_of(s, i))) is Some
}

/// The one-to-one fold of a character: `None` when the fold map expands it
/// to another number of characters.
pub open spec fn spec_fold_char(lang: LangEntryView, c: char) -> Option<char> {
    if lang.fold_map.len() == 0 {
        Some(spec_lowercase_first(c))
    } else {
        match spec_find_fold(lang.fold_map, c) {
            Some(m) => if m.to@.len() == 1 {
                Some(m.to@[0])
            } else {
                None
            },
            None => Some(spec_lowercase_first(c)),
        }
    }
}

/// The one-to-one folds of `s`, up to the first character without one.
pub open spec fn spec_fold_char_run(lang: LangEntryView, s: Seq<char>) -> Seq<char>
    decreases s.len(),
{
    if s.len() == 0 {
        Seq::empty()
    } else {
        match spec_fold_char(lang, s[0]) {
            Some(c) => seq![c] + spec_fold_char_run(lang, s.drop_first()),
            None => Seq::empty(),
        }
    }
}

/// Every character replaced by its full lowercase mapping.
pub open spec fn spec_lowercase_all(s: Seq<char>) -> Seq<char>
    decreases s.len(),
{
    if s.len() == 0 {
        Seq::empty()
    } else {
        spec_lowercase_full(s[0]) + spec_lowercase_all(s.drop_first())
    }
}

/// What the character map yields: full lowercasing where the language has
/// no fold map, the one-to-one folds otherwise.
pub open spec fn spec_fold_char_bind(lang: LangEntryView, s: Seq<char>) -> Seq<char> {
    if lang.fold_map.len() == 0 {
        spec_lowercase_all(s)
    } else {
        spec_fold_char_run(lang, s)
    }
}

/// Appends the full lowercase mapping of `c`.
fn push_lowercase(out: &mut String, c: char)
    ensures
        final(out)@ == old(out)@ + spec_lowercase_full(c),
{
    let lower = char_to_lowercase(c);
    let ghost o0 = out@;
    let n = lower.len();
    for j in 0..n
        invariant
            n == lower@.len(),
            lower@ == spec_lowercase_full(c),
            out@ == o0 + lower@.take(j as int),
    {
        push_char(out, lower[j]);
        assert(lower@.take(j + 1) =~= lower@.take(j as int).push(lower@[j as int]));
    }
    assert(lower@.take(n as int) =~= lower@);
}

/// Every character of `text` replaced by its full lowercase mapping.
fn lowercase_all(text: &str) -> (r: String)
    ensures
        r@ == spec_lowercase_all(text@),
{
    let chars = str_chars(text);
    let n = chars.len();
    let mut out = String::new();
    assert(text@.skip(0) =~= text@);
    for i in 0..n
        invariant
            n == chars@.len(),
            chars@ == text@,
            spec_lowercase_all(text@) == out@ + spec_lowercase_all(text@.skip(i as int)),
    {
        let ghost o0 = out@;
        assert(text@.skip(i as int).drop_first() =~= text@.skip(i + 1));
        assert(text@.skip(i as int)[0] == chars@[i as int]);
        push_lowercase(&mut out, chars[i]);
        assert(o0 + spec_lowercase_all(text@.skip(i as int)) =~= out@ + spec_lowercase_all(
            text@.skip(i + 1),
        ));
    }
    assert(spec_lowercase_all(text@.skip(n as int)) =~= Seq::<char>::empty());
    assert(out@ + Seq::<char>::empty() =~= out@);
    out
}

proof fn lemma_lowercase_all_identity(s: Seq<char>)
    requires
        forall|k: int| 0 <= k < s.len() ==> spec_lowercase_full(#[trigger] s[k]) == seq![s[k]],
    ensures
        spec_lowercase_all(s) == s,
    decreases s.len(),
{
    if s.len() > 0 {
        let t = s.drop_first();
        assert forall|k: int| 0 <= k < t.len() implies spec_lowercase_full(#[trigger] t[k]) == seq![t[k]] by {
            assert(t[k] == s[k + 1]);
        }
        lemma_lowercase_all_identity(t);
        assert(spec_lowercase_full(s[0]) == seq![s[0]]);
        assert(seq![s[0]] + t =~= s);
    }
}

/// Every fold target of a built-in language is already lowercase:
/// lowercasing it gives it back, so folding a folded text folds nothing
/// more through the fold map.
pub proof fn lemma_fold_targets_already_lowercase(lang: Lang)
    ensures
        forall|i: int|
            0 <= i < spec_lang_entry(lang).fold_map.len() ==> spec_lowercase_all(
                #[trigger] spec_lang_entry(lang).fold_map[i].to@,
            ) == spec_lang_entry(lang).fold_map[i].to@,
{
    let e = spec_lang_entry(lang);
    lemma_builtin_tables_consistent(lang);
    assert forall|i: int| 0 <= i < e.fold_map.len() implies spec_lowercase_all(
        #[trigger] e.fold_map[i].to@,
    ) == e.fold_map[i].to@ by {
        assert forall|k: int| 0 <= k < e.fold_map[i].to@.len() implies spec_lowercase_full(
            #[trigger] e.fold_map[i].to@[k],
        ) == seq![e.fold_map[i].to@[k]] by {
        }
        lemma_lowercase_all_identity(e.fold_map[i].to@);
    }
}

impl Stage for FoldCase {
    open spec fn spec_needs_apply(&self, text: Seq<char>, ctx: &Context) -> bool {
        spec_fold_case_needs(ctx.lang_entry@, text)
    }

    open spec fn spec_apply(&self, text: Seq<char>, ctx: &Context) -> Seq<char> {
        spec_fold_case(ctx.lang_entry@, text)
    }

    open spec fn spec_skip_sound(&self, text: Seq<char>, ctx: &Context) -> bool {
        true
    }

    fn name(&self) -> (r: &'static str)
        ensures
            r@ == "case_fold"@,
    {
        "case_fold"
    }

    fn needs_apply(&self, text: &str, ctx: &Context) -> (r: Result<bool, StageError>) {
        let chars = str_chars(text);
        let n = chars.len();
        for i in 0..n
            invariant
                n == chars@.len(),
                chars@ == text@,
                forall|j: int| 0 <= j < i ==> !ctx.lang_entry@.needs_case_fold(#[trigger] text@[j]),
        {
            if ctx.lang_entry.needs_case_fold(chars[i]) {
                assert(ctx.lang_entry@.needs_case_fold(text@[i as int]));
                return Ok(true);
            }
        }
        if ctx.lang_entry.requires_peek_ahead() {
            for i in 0..n
                invariant
                    n == chars@.len(),
                    chars@ == text@,
                    ctx.lang_entry@.requires_peek_ahead,
                    forall|j: int|
                        0 <= j < i ==> (#[trigger] ctx.lang_entry@.peek_fold(
                            text@[j],
                            spec_next_of(text@, j),
                        )) is None,
            {
                let next = if n - i > 1 {
                    Some(chars[i + 1])
                } else {
                    None
                };
                assert(next == spec_next_of(text@, i as int));
                if ctx.lang_entry.get_peek_fold(chars[i], next).is_some() {
                    assert(ctx.lang_entry@.peek_fold(text@[i as int], spec_next_of(text@, i as int))
                        is Some);
                    return Ok(true);
                }
            }
        }
        Ok(false)
    }

    /// A text that folding leaves as it is comes back as it came.
    fn apply<'a>(&self, text: Cow<'a, str>, ctx: &Context) -> (r: Result<Cow<'a, str>, StageError>)
        ensures
            spec_fold_case(ctx.lang_entry@, text@) == text@ ==> r == Ok::<Cow<'a, str>, StageError>(
                text,
            ),
    {
        let lang = &ctx.lang_entry;
        let out = if lang.requires_peek_ahead() {
            apply_with_peek_ahead(cow_str(&text), lang)
        } else {
            fold_plain(cow_str(&text), lang)
        };
        if str_eq(out.as_str(), cow_str(&text)) {
            return Ok(text);
        }
        Ok(Cow::Owned(out))
    }

    open spec fn spec_safe_skip(&self) -> bool {
        false
    }

    fn safe_skip_approximation(&self) -> (r: bool) {
        false
    }

    proof fn lemma_apply_when_not_needed(&self, text: Seq<char>, ctx: &Context) {
        if !self.spec_needs_apply(text, ctx) && self.spec_skip_sound(text, ctx) {
            let lang = ctx.lang_entry@;
            assert forall|i: int| 0 <= i < text.len() implies lang.fold_chars(#[trigger] text[i])
                == seq![text[i]] by {
                let c = text[i];
                assert(!lang.needs_case_fold(c));
                assert(spec_lowercase_full(c).len() == 1);
                assert(spec_lowercase_full(c) =~= seq![spec_lowercase_first(c)]);
            }
            if lang.requires_peek_ahead {
                assert forall|i: int| 0 <= i < text.len() implies (#[trigger] lang.peek_fold(
                    text[i],
                    spec_next_of(text, i),
                )) is None by {}
                lemma_fold_peek_identity(lang, text);
            } else {
                lemma_fold_plain_identity(lang, text);
            }
        }
    }
}

/// The one-to-one fold of a character.
pub fn fold_char(lang: &LangEntry, c: char) -> (r: Option<char>)
    ensures
        r == spec_fold_char(lang@, c),
{
    if lang.fold_map().len() == 0 {
        return Some(lowercase_first(c));
    }
    match lang.find_fold_map(c) {
        Some(m) => {
            let to = str_chars(m.to);
            if to.len() == 1 {
                Some(to[0])
            } else {
                None
            }
        },
        None => Some(lowercase_first(c)),
    }
}

/// The one-to-one folds of `text`, up to the first character without one.
fn fold_char_run(lang: &LangEntry, text: &str) -> (r: String)
    ensures
        r@ == spec_fold_char_run(lang@, text@),
{
    let chars = str_chars(text);
    let n = chars.len();
    let mut out = String::new();
    assert(text@.skip(0) =~= text@);
    for i in 0..n
        invariant
            n == chars@.len(),
            chars@ == text@,
            spec_fold_char_run(lang@, text@) == out@ + spec_fold_char_run(lang@, text@.skip(i as int)),
    {
        let ghost o0 = out@;
        assert(text@.skip(i as int).drop_first() =~= text@.skip(i + 1));
        assert(text@.skip(i as int)[0] == chars@[i as int]);
        match fold_char(lang, chars[i]) {
            Some(f) => {
                push_char(&mut out, f);
                assert(o0 + spec_fold_char_run(lang@, text@.skip(i as int)) =~= out@
                    + spec_fold_char_run(lang@, text@.skip(i + 1)));
            },
            None => {
                assert(spec_fold_char_run(lang@, text@.skip(i as int)) =~= Seq::<char>::empty());
                assert(out@ + Seq::<char>::empty() =~= out@);
                return out;
            },
        }
    }
    assert(spec_fold_char_run(lang@, text@.skip(n as int)) =~= Seq::<char>::empty());
    assert(out@ + Seq::<char>::empty() =~= out@);
    out
}

impl CharMapper for FoldCase {
    open spec fn spec_map(&self, c: char, ctx: &Context) -> Option<char> {
        spec_fold_char(ctx.lang_entry@, c)
    }

    open spec fn spec_bind(&self, text: Seq<char>, ctx: &Context) -> Seq<char> {
        spec_fold_char_bind(ctx.lang_entry@, text)
    }

    fn map(&self, c: char, ctx: &Context) -> (r: Option<char>) {
        fold_char(&ctx.lang_entry, c)
    }

    fn bind(&self, text: &str, ctx: &Context) -> (r: String) {
        if ctx.lang_entry.fold_map().len() == 0 {
            return lowercase_all(text);
        }
        fold_char_run(&ctx.lang_entry, text)
    }
}

impl FoldCase {
    /// The stage as a character map, where the language's folds are all
    /// one-to-one and it needs no peek-ahead.
    pub fn as_char_mapper(&self, ctx: &Context) -> (r: Option<&FoldCase>)
        ensures
            r == (if ctx.lang_entry@.has_one_to_one_folds && !ctx.lang_entry@.requires_peek_ahead {
                Some(self)
            } else {
                None::<&FoldCase>
            }),
    {
        if ctx.lang_entry.has_one_to_one_folds() && !ctx.lang_entry.requires_peek_ahead() {
            Some(self)
        } else {
            None
        }
    }
}

impl StaticFusableStage for FoldCase {

    open spec fn spec_sound_everywhere(&self, ctx: &Context) -> bool {
        true
    }

    proof fn lemma_sound_everywhere(&self, text: Seq<char>, ctx: &Context) {
    }
    open spec fn spec_supports_static_fusion(&self) -> bool {
        false
    }

    open spec fn spec_fused(&self, text: Seq<char>, ctx: &Context) -> Seq<char> {
        text
    }

    open spec fn spec_fused_sound(&self, text: Seq<char>, ctx: &Context) -> bool {
        true
    }

    fn supports_static_fusion(&self) -> (r: bool) {
        false
    }

    /// Not fusable: the characters pass through.
    fn fused_apply(&self, text: &str, ctx: &Context) -> (r: String) {
        text.to_owned()
    }

    proof fn lemma_fused_is_apply(&self, text: Seq<char>, ctx: &Context) {
    }
}

} // verus!
