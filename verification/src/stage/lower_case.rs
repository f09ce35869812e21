//! Lower-casing, one character for one character.
use vstd::prelude::*;
use std::borrow::Cow;
use crate::context::Context;
use crate::lang::{Lang, LangEntry, LangEntryView, spec_find_case};
use crate::lang::data::{spec_lang_entry, lemma_builtin_tables_consistent};
use crate::stage::case_fold::lemma_find_case_entry;
use crate::stage::{Stage, StageError, StaticFusableStage, CharStream, StrChars, collect_stream};
use crate::text::{
    push_char, str_chars, chars_all_ascii, spec_all_ascii, spec_lowercase_first, spec_to_lowercase,
    spec_ascii_lower, char_to_lowercase,
};

verus! {

/// Lower-cases text one character for one character: the language's case
/// map first (Turkish `İ`→`i`, `I`→`ı`), then the first character of the
/// Unicode lowercase mapping.
#[derive(Debug, Default, Clone, Copy)]
pub struct LowerCase;

/// An ASCII upper-case letter.
pub open spec fn spec_is_ascii_upper(c: char) -> bool {
    'A' <= c && c <= 'Z'
}

/// The text lower-cased by the language's rules.
pub open spec fn spec_lowercase_text(lang: LangEntryView, text: Seq<char>) -> Seq<char> {
    text.map_values(|c: char| lang.lowercase_char(c))
}

/// The quick check: in ASCII text an ASCII capital or a character with a
/// case mapping, otherwise a character that the case map or the Unicode
/// mapping changes.
pub open spec fn spec_lowercase_needs(lang: LangEntryView, text: Seq<char>) -> bool {
    if spec_all_ascii(text) {
        exists|i: int|
            0 <= i < text.len() && (spec_is_ascii_upper(#[trigger] text[i]) || spec_find_case(
                lang.case_map,
                text[i],
            ) is Some)
    } else {
        exists|i: int| 0 <= i < text.len() && lang.needs_lowercase(#[trigger] text[i])
    }
}

/// Lower-casing maps each character to exactly one character: the text
/// keeps its length, and each position holds the lowercase form of the
/// character that stood there.
pub proof fn lemma_lowercase_is_one_to_one(lang: LangEntryView, text: Seq<char>)
    ensures
        spec_lowercase_text(lang, text).len() == text.len(),
        forall|i: int|
            0 <= i < text.len() ==> #[trigger] spec_lowercase_text(lang, text)[i] == lang.lowercase_char(
                text[i],
            ),
{
}

/// The lowercase mapping of an ASCII character is its ASCII lowercase.
pub proof fn lemma_ascii_lowercase_first(c: char)
    requires
        (c as u32) < 0x80,
    ensures
        spec_lowercase_first(c) == spec_ascii_lower(c),
{
}

/// With a built-in language's rules, a character needs lower-casing
/// exactly when lower-casing changes it.
proof fn lemma_builtin_lowercase_char(lang: Lang, c: char)
    ensures
        spec_lang_entry(lang).needs_lowercase(c) == (spec_lang_entry(lang).lowercase_char(c) != c),
        (c as u32) < 0x80 ==> (spec_lang_entry(lang).needs_lowercase(c) == (spec_is_ascii_upper(c)
            || spec_find_case(spec_lang_entry(lang).case_map, c) is Some)),
{
    let e = spec_lang_entry(lang);
    lemma_builtin_tables_consistent(lang);
    lemma_find_case_entry(e.case_map, c);
    if let Some(x) = spec_find_case(e.case_map, c) {
        let i = choose|i: int| 0 <= i < e.case_map.len() && #[trigger] e.case_map[i] == x;
        assert(e.case_map[i].to != e.case_map[i].from);
    }
    if (c as u32) < 0x80 {
        lemma_ascii_lowercase_first(c);
        if spec_is_ascii_upper(c) {
            assert(((c as u32 + 32) as u8) as u32 == c as u32 + 32);
            assert(spec_ascii_lower(c) as u32 != c as u32);
        }
    }
}

/// With a built-in language's rules, the quick check is true exactly when
/// lower-casing changes the text.
pub proof fn lemma_lowercase_needs_is_exact(lang: Lang, text: Seq<char>)
    ensures
        spec_lowercase_needs(spec_lang_entry(lang), text) == (spec_lowercase_text(
            spec_lang_entry(lang),
            text,
        ) != text),
{
    let e = spec_lang_entry(lang);
    let out = spec_lowercase_text(e, text);
    assert forall|i: int| 0 <= i < text.len() implies e.needs_lowercase(#[trigger] text[i]) == (
    e.lowercase_char(text[i]) != text[i]) by {
        lemma_builtin_lowercase_char(lang, text[i]);
    }
    if spec_lowercase_needs(e, text) {
        let i = if spec_all_ascii(text) {
            choose|i: int|
                0 <= i < text.len() && (spec_is_ascii_upper(#[trigger] text[i]) || spec_find_case(
                    e.case_map,
                    text[i],
                ) is Some)
        } else {
            choose|i: int| 0 <= i < text.len() && e.needs_lowercase(#[trigger] text[i])
        };
        if spec_all_ascii(text) {
            assert((text[i] as u32) < 0x80);
            lemma_builtin_lowercase_char(lang, text[i]);
        }
        assert(out[i] != text[i]);
    } else {
        assert forall|i: int| 0 <= i < text.len() implies out[i] == text[i] by {
            if spec_all_ascii(text) {
                assert((text[i] as u32) < 0x80);
                lemma_builtin_lowercase_char(lang, text[i]);
            }
        }
        assert(out =~= text);
    }
}

/// The text that `apply` would give, computed one character at a time.
pub fn lowercase_chars(text: &str, lang: &LangEntry) -> (r: String)
    ensures
        r@ == spec_lowercase_text(lang@, text@),
{
    let chars = str_chars(text);
    let n = chars.len();
    let mut out = String::new();
    for i in 0..n
        invariant
            n == chars@.len(),
            chars@ == text@,
            out@ == spec_lowercase_text(lang@, text@.take(i as int)),
    {
        let c = lang.apply_lowercase(chars[i]);
        push_char(&mut out, c);
        assert(spec_lowercase_text(lang@, text@.take(i + 1)) =~= spec_lowercase_text(
            lang@,
            text@.take(i as int),
        ).push(c));
    }
    assert(text@.take(n as int) =~= text@);
    out
}

impl Stage for LowerCase {
    open spec fn spec_needs_apply(&self, text: Seq<char>, ctx: &Context) -> bool {
        spec_lowercase_needs(ctx.lang_entry@, text)
    }

    open spec fn spec_apply(&self, text: Seq<char>, ctx: &Context) -> Seq<char> {
        spec_lowercase_text(ctx.lang_entry@, text)
    }

    open spec fn spec_skip_sound(&self, text: Seq<char>, ctx: &Context) -> bool {
        true
    }

    fn name(&self) -> (r: &'static str)
        ensures
            r@ == "lowercase"@,
    {
        "lowercase"
    }

    fn needs_apply(&self, text: &str, ctx: &Context) -> (r: Result<bool, StageError>) {
        let chars = str_chars(text);
        let n = chars.len();
        if chars_all_ascii(&chars) {
            for i in 0..n
                invariant
                    n == chars@.len(),
                    chars@ == text@,
                    forall|j: int|
                        0 <= j < i ==> !(spec_is_ascii_upper(#[trigger] text@[j]) || spec_find_case(
                            ctx.lang_entry@.case_map,
                            text@[j],
                        ) is Some),
            {
                if ('A' <= chars[i] && chars[i] <= 'Z') || ctx.lang_entry.find_case_map(chars[i]).is_some() {
                    assert(spec_is_ascii_upper(text@[i as int]) || spec_find_case(
                        ctx.lang_entry@.case_map,
                        text@[i as int],
                    ) is Some);
                    return Ok(true);
                }
            }
            return Ok(false);
        }
        for i in 0..n
            invariant
                n == chars@.len(),
                chars@ == text@,
                !spec_all_ascii(text@),
                forall|j: int| 0 <= j < i ==> !ctx.lang_entry@.needs_lowercase(#[trigger] text@[j]),
        {
            if ctx.lang_entry.needs_lowercase(chars[i]) {
                assert(ctx.lang_entry@.needs_lowercase(text@[i as int]));
                return Ok(true);
            }
        }
        Ok(false)
    }

    fn apply<'a>(&self, text: Cow<'a, str>, ctx: &Context) -> (r: Result<Cow<'a, str>, StageError>) {
        let t: &str = match &text {
            Cow::Borrowed(b) => b,
            Cow::Owned(o) => o.as_str(),
        };
        Ok(Cow::Owned(lowercase_chars(t, &ctx.lang_entry)))
    }

    open spec fn spec_safe_skip(&self) -> bool {
        false
    }

    fn safe_skip_approximation(&self) -> (r: bool) {
        false
    }

    proof fn lemma_apply_when_not_needed(&self, text: Seq<char>, ctx: &Context) {
        if !self.spec_needs_apply(text, ctx) {
            let lang = ctx.lang_entry@;
            assert forall|i: int| 0 <= i < text.len() implies lang.lowercase_char(#[trigger] text[i])
                == text[i] by {
                let c = text[i];
                if spec_all_ascii(text) {
                    assert((c as u32) < 0x80);
                    lemma_ascii_lowercase_first(c);
                    assert(!spec_is_ascii_upper(c));
                } else {
                    assert(!lang.needs_lowercase(c));
                }
            }
            assert(spec_lowercase_text(lang, text) =~= text);
        }
    }
}

/// The lower-casing adapter.
pub struct LowercaseAdapter<'a, I> {
    input: I,
    lang: &'a LangEntry,
}

impl<'a, I: CharStream> CharStream for LowercaseAdapter<'a, I> {
    closed spec fn rest(&self) -> Seq<char> {
        spec_lowercase_text(self.lang@, self.input.rest())
    }

    closed spec fn stream_inv(&self) -> bool {
        self.input.stream_inv()
    }

    fn next_char(&mut self) -> (r: Option<char>) {
        let ghost before = self.input.rest();
        match self.input.next_char() {
            Some(c) => {
                assert(spec_lowercase_text(self.lang@, before).drop_first() =~= spec_lowercase_text(
                    self.lang@,
                    self.input.rest(),
                ));
                Some(self.lang.apply_lowercase(c))
            },
            None => None,
        }
    }
}

impl LowerCase {
    /// The adapter over `input`.
    pub fn static_fused_adapter<'a, I: CharStream>(&self, input: I, ctx: &'a Context) -> (r:
        LowercaseAdapter<'a, I>)
        requires
            input.stream_inv(),
        ensures
            r.stream_inv(),
            r.rest() == spec_lowercase_text(ctx.lang_entry@, input.rest()),
    {
        LowercaseAdapter { input, lang: &ctx.lang_entry }
    }
}

impl StaticFusableStage for LowerCase {

    open spec fn spec_sound_everywhere(&self, ctx: &Context) -> bool {
        true
    }

    proof fn lemma_sound_everywhere(&self, text: Seq<char>, ctx: &Context) {
    }
    open spec fn spec_supports_static_fusion(&self) -> bool {
        true
    }

    open spec fn spec_fused(&self, text: Seq<char>, ctx: &Context) -> Seq<char> {
        spec_lowercase_text(ctx.lang_entry@, text)
    }

    open spec fn spec_fused_sound(&self, text: Seq<char>, ctx: &Context) -> bool {
        true
    }

    fn supports_static_fusion(&self) -> (r: bool) {
        true
    }

    fn fused_apply(&self, text: &str, ctx: &Context) -> (r: String) {
        let mut adapter = self.static_fused_adapter(StrChars::new(text), ctx);
        collect_stream(&mut adapter)
    }

    proof fn lemma_fused_is_apply(&self, text: Seq<char>, ctx: &Context) {
    }
}

} // verus!
