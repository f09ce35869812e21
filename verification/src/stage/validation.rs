//! UTF-8 validation of a text's bytes: the text is handed back as it came
//! when they are valid, and rejected with a validation error otherwise.
use vstd::prelude::*;
use std::borrow::Cow;
use simdutf8::basic::Utf8Error;
use vstd::string::StringSliceAdditionalSpecFns;
use vstd::utf8::{encode_utf8_valid_utf8, valid_utf8};
use crate::context::Context;
use crate::process::cow_str;
use crate::stage::{Stage, StageError, StaticFusableStage};

verus! {

/// The error type of `simdutf8::basic::from_utf8`, carried through unread.
#[verifier::external_type_specification]
#[verifier::external_body]
pub struct ExUtf8Error(Utf8Error);

/// `simdutf8::basic::from_utf8`: `Ok` with the bytes read as text exactly
/// when they are valid UTF-8, its zero-sized error otherwise.
#[verifier::external_body]
pub(crate) fn simd_from_utf8<'a>(bytes: &'a [u8]) -> (r: Result<&'a str, Utf8Error>)
    ensures
        r is Ok <==> valid_utf8(bytes@),
        r matches Ok(s) ==> s.spec_bytes() == bytes@,
{
    simdutf8::basic::from_utf8(bytes)
}

/// The `Display` text of `simdutf8::basic::Utf8Error`, which its source
/// writes as one fixed message.
#[verifier::external_body]
pub(crate) fn utf8_error_message(e: &Utf8Error) -> (r: String)
    ensures
        r@ == "invalid utf-8 sequence"@,
{
    e.to_string()
}

/// Validates that the text's bytes are UTF-8.
#[derive(Debug, Default, Clone, Copy)]
pub struct Utf8Validate;

/// Checks the bytes of `text`; a `&str` always passes.
pub fn validate_utf8(text: &str) -> (r: Result<(), String>)
    ensures
        r == Ok::<(), String>(()),
{
    proof {
        encode_utf8_valid_utf8(text@);
    }
    match simd_from_utf8(text.as_bytes()) {
        Ok(_) => Ok(()),
        Err(e) => Err(utf8_error_message(&e)),
    }
}

impl Stage for Utf8Validate {
    open spec fn spec_needs_apply(&self, text: Seq<char>, ctx: &Context) -> bool {
        true
    }

    open spec fn spec_apply(&self, text: Seq<char>, ctx: &Context) -> Seq<char> {
        text
    }

    open spec fn spec_skip_sound(&self, text: Seq<char>, ctx: &Context) -> bool {
        true
    }

    fn name(&self) -> (r: &'static str)
        ensures
            r@ == "utf8_validate"@,
    {
        "utf8_validate"
    }

    /// Always runs.
    fn needs_apply(&self, text: &str, ctx: &Context) -> (r: Result<bool, StageError>) {
        Ok(true)
    }

    /// The text comes back as it came.
    fn apply<'a>(&self, text: Cow<'a, str>, ctx: &Context) -> (r: Result<Cow<'a, str>, StageError>)
        ensures
            r == Ok::<Cow<'a, str>, StageError>(text),
    {
        match validate_utf8(cow_str(&text)) {
            Ok(()) => Ok(text),
            Err(msg) => Err(StageError::Validation("utf8_validate", msg)),
        }
    }

    open spec fn spec_safe_skip(&self) -> bool {
        false
    }

    fn safe_skip_approximation(&self) -> (r: bool) {
        false
    }

    proof fn lemma_apply_when_not_needed(&self, text: Seq<char>, ctx: &Context) {
    }
}

impl StaticFusableStage for Utf8Validate {

    open spec fn spec_sound_everywhere(&self, ctx: &Context) -> bool {
        true
    }

    proof fn lemma_sound_everywhere(&self, text: Seq<char>, ctx: &Context) {
    }
    open spec fn spec_supports_static_fusion(&self) -> bool {
        false
    }

    open spec fn spec_fused(&self, text: Seq<char>, ctx: &Context) -> Seq<char> {
        text
    }

    open spec fn spec_fused_sound(&self, text: Seq<char>, ctx: &Context) -> bool {
        true
    }

    fn supports_static_fusion(&self) -> (r: bool) {
        false
    }

    /// Not fusable: the characters pass through.
    fn fused_apply(&self, text: &str, ctx: &Context) -> (r: String) {
        text.to_owned()
    }

    proof fn lemma_fused_is_apply(&self, text: Seq<char>, ctx: &Context) {
    }
}

} // verus!
