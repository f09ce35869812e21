//! Trimming of `White_Space` characters at both ends of a text; a text
//! that has none there is handed back as it came.
use vstd::prelude::*;
use std::borrow::Cow;
use crate::context::Context;
use crate::process::cow_str;
use crate::stage::{Stage, StageError, StaticFusableStage};
use crate::text::{chars_to_string, spec_trim, spec_trim_end, spec_trim_start, str_chars, str_eq, trim_chars};
use crate::unicode::{is_whitespace, spec_is_whitespace};

verus! {

/// Trims `White_Space` characters from both ends.
#[derive(Debug, Default, Clone, Copy)]
pub struct Trim;

/// Whether `s` starts or ends with a `White_Space` character.
pub open spec fn spec_needs_trim(s: Seq<char>) -> bool {
    s.len() > 0 && (spec_is_whitespace(s[0]) || spec_is_whitespace(s.last()))
}

/// Whether `text` starts or ends with a `White_Space` character.
pub fn needs_trim(text: &str) -> (r: bool)
    ensures
        r == spec_needs_trim(text@),
{
    let chars = str_chars(text);
    let n = chars.len();
    n > 0 && (is_whitespace(chars[0]) || is_whitespace(chars[n - 1]))
}

/// A text without whitespace at either end is its own trim.
pub proof fn lemma_trim_when_not_needed(s: Seq<char>)
    requires
        !spec_needs_trim(s),
    ensures
        spec_trim(s) == s,
{
    assert(spec_trim_start(s) == s);
}

proof fn lemma_trim_start_first(s: Seq<char>)
    ensures
        spec_trim_start(s).len() > 0 ==> !spec_is_whitespace(spec_trim_start(s)[0]),
        spec_trim_start(s).len() > 0 ==> spec_trim_start(s).last() == s.last(),
    decreases s.len(),
{
    if s.len() > 0 && spec_is_whitespace(s[0]) {
        lemma_trim_start_first(s.drop_first());
    }
}

proof fn lemma_trim_end_last(s: Seq<char>)
    ensures
        spec_trim_end(s).len() > 0 ==> !spec_is_whitespace(spec_trim_end(s).last()),
        spec_trim_end(s).len() > 0 ==> spec_trim_end(s)[0] == s[0],
    decreases s.len(),
{
    if s.len() > 0 && spec_is_whitespace(s.last()) {
        lemma_trim_end_last(s.drop_last());
    }
}

proof fn lemma_trim_start_len(s: Seq<char>)
    ensures
        spec_trim_start(s).len() <= s.len(),
        s.len() > 0 && spec_is_whitespace(s[0]) ==> spec_trim_start(s).len() < s.len(),
    decreases s.len(),
{
    if s.len() > 0 && spec_is_whitespace(s[0]) {
        lemma_trim_start_len(s.drop_first());
    }
}

proof fn lemma_trim_end_len(s: Seq<char>)
    ensures
        spec_trim_end(s).len() <= s.len(),
        s.len() > 0 && spec_is_whitespace(s.last()) ==> spec_trim_end(s).len() < s.len(),
    decreases s.len(),
{
    if s.len() > 0 && spec_is_whitespace(s.last()) {
        lemma_trim_end_len(s.drop_last());
    }
}

/// The quick check is exact: it says yes exactly when trimming changes the
/// text.
pub proof fn lemma_trim_exact(s: Seq<char>)
    ensures
        spec_needs_trim(s) == (spec_trim(s) != s),
{
    lemma_trim_start_len(s);
    lemma_trim_end_len(spec_trim_start(s));
    if !spec_needs_trim(s) {
        lemma_trim_when_not_needed(s);
    } else if !spec_is_whitespace(s[0]) {
        assert(spec_trim_start(s) == s);
        lemma_trim_end_len(s);
    }
}

/// Trimming twice trims nothing more.
pub proof fn lemma_trim_idempotent(s: Seq<char>)
    ensures
        spec_trim(spec_trim(s)) == spec_trim(s),
{
    let a = spec_trim_start(s);
    let t = spec_trim_end(a);
    lemma_trim_start_first(s);
    lemma_trim_end_last(a);
    assert(!spec_needs_trim(t));
    lemma_trim_when_not_needed(t);
}

/// `text` trimmed; the text itself where trimming changes nothing.
pub(crate) fn trim_cow<'a>(text: Cow<'a, str>) -> (r: Cow<'a, str>)
    ensures
        r@ == spec_trim(text@),
        spec_trim(text@) == text@ ==> r == text,
{
    let chars = str_chars(cow_str(&text));
    let trimmed = chars_to_string(&trim_chars(&chars));
    if str_eq(trimmed.as_str(), cow_str(&text)) {
        return text;
    }
    Cow::Owned(trimmed)
}

impl Stage for Trim {
    open spec fn spec_needs_apply(&self, text: Seq<char>, ctx: &Context) -> bool {
        spec_needs_trim(text)
    }

    open spec fn spec_apply(&self, text: Seq<char>, ctx: &Context) -> Seq<char> {
        spec_trim(text)
    }

    open spec fn spec_skip_sound(&self, text: Seq<char>, ctx: &Context) -> bool {
        true
    }

    fn name(&self) -> (r: &'static str)
        ensures
            r@ == "trim"@,
    {
        "trim"
    }

    fn needs_apply(&self, text: &str, ctx: &Context) -> (r: Result<bool, StageError>) {
        Ok(needs_trim(text))
    }

    /// A text that trimming leaves as it is comes back as it came.
    fn apply<'a>(&self, text: Cow<'a, str>, ctx: &Context) -> (r: Result<Cow<'a, str>, StageError>)
        ensures
            spec_trim(text@) == text@ ==> r == Ok::<Cow<'a, str>, StageError>(text),
    {
        Ok(trim_cow(text))
    }

    open spec fn spec_safe_skip(&self) -> bool {
        false
    }

    fn safe_skip_approximation(&self) -> (r: bool) {
        false
    }

    proof fn lemma_apply_when_not_needed(&self, text: Seq<char>, ctx: &Context) {
        if !self.spec_needs_apply(text, ctx) && self.spec_skip_sound(text, ctx) {
            lemma_trim_when_not_needed(text);
        }
    }
}

impl StaticFusableStage for Trim {

    open spec fn spec_sound_everywhere(&self, ctx: &Context) -> bool {
        true
    }

    proof fn lemma_sound_everywhere(&self, text: Seq<char>, ctx: &Context) {
    }
    open spec fn spec_supports_static_fusion(&self) -> bool {
        false
    }

    open spec fn spec_fused(&self, text: Seq<char>, ctx: &Context) -> Seq<char> {
        text
    }

    open spec fn spec_fused_sound(&self, text: Seq<char>, ctx: &Context) -> bool {
        true
    }

    fn supports_static_fusion(&self) -> (r: bool) {
        false
    }

    /// Not fusable: the characters pass through.
    fn fused_apply(&self, text: &str, ctx: &Context) -> (r: String) {
        text.to_owned()
    }

    proof fn lemma_fused_is_apply(&self, text: Seq<char>, ctx: &Context) {
    }
}

} // verus!
