//! Unicode normalization forms (NFC, NFD, NFKC, NFKD), computed by `icu_normalizer`.
use vstd::prelude::*;
use std::borrow::Cow;
use icu_normalizer::{ComposingNormalizer, DecomposingNormalizer, DecomposingNormalizerBorrowed};
use crate::context::Context;
use crate::stage::{Stage, StageError, StaticFusableStage};
use crate::text::{str_chars, chars_to_string};

verus! {

/// The NFC form of a text, as `icu_normalizer` computes it.
pub uninterp spec fn spec_nfc(text: Seq<char>) -> Seq<char>;

/// Whether a text is already in NFC, as `icu_normalizer` decides it.
pub uninterp spec fn spec_is_nfc(text: Seq<char>) -> bool;

/// `normalize` of the NFC normalizer of `icu_normalizer`. The Unicode
/// algorithm and data are not restated here.
#[verifier::external_body]
fn nfc_normalize(text: &str) -> (r: String)
    ensures
        r@ == spec_nfc(text@),
{
    ComposingNormalizer::new_nfc().normalize(text).into_owned()
}

/// `is_normalized` of the NFC normalizer: the source decides it by
/// normalizing and comparing, and `normalize` hands back a normalized text
/// unchanged.
#[verifier::external_body]
fn nfc_is_normalized(text: &str) -> (r: bool)
    ensures
        r == spec_is_nfc(text@),
        r ==> spec_nfc(text@) == text@,
{
    ComposingNormalizer::new_nfc().is_normalized(text)
}

/// Unicode Normalization Form C: canonical decomposition, then canonical composition.
#[derive(Debug, Default, Clone, Copy)]
pub struct NfcStage;

/// The NFC stage.
pub const NFC: NfcStage = NfcStage;

impl Stage for NfcStage {
    open spec fn spec_needs_apply(&self, text: Seq<char>, ctx: &Context) -> bool {
        !spec_is_nfc(text)
    }

    /// A text the normalizer's check finds normalized is kept as it is; the
    /// normalizer would hand it back unchanged.
    open spec fn spec_apply(&self, text: Seq<char>, ctx: &Context) -> Seq<char> {
        if spec_is_nfc(text) {
            text
        } else {
            spec_nfc(text)
        }
    }

    open spec fn spec_skip_sound(&self, text: Seq<char>, ctx: &Context) -> bool {
        true
    }

    fn name(&self) -> (r: &'static str)
        ensures
            r@ == "nfc"@,
    {
        "nfc"
    }

    fn needs_apply(&self, text: &str, ctx: &Context) -> (r: Result<bool, StageError>) {
        Ok(!nfc_is_normalized(text))
    }

    /// A normalized text comes back as it came.
    fn apply<'a>(&self, text: Cow<'a, str>, ctx: &Context) -> (r: Result<Cow<'a, str>, StageError>)
        ensures
            spec_is_nfc(text@) ==> r == Ok::<Cow<'a, str>, StageError>(text),
    {
        let normalized = {
            let t: &str = match &text {
                Cow::Borrowed(b) => b,
                Cow::Owned(o) => o.as_str(),
            };
            nfc_is_normalized(t)
        };
        if normalized {
            return Ok(text);
        }
        let t: &str = match &text {
            Cow::Borrowed(b) => b,
            Cow::Owned(o) => o.as_str(),
        };
        Ok(Cow::Owned(nfc_normalize(t)))
    }

    open spec fn spec_safe_skip(&self) -> bool {
        false
    }

    fn safe_skip_approximation(&self) -> (r: bool) {
        false
    }

    proof fn lemma_apply_when_not_needed(&self, text: Seq<char>, ctx: &Context) {
    }
}

impl StaticFusableStage for NfcStage {

    open spec fn spec_sound_everywhere(&self, ctx: &Context) -> bool {
        true
    }

    proof fn lemma_sound_everywhere(&self, text: Seq<char>, ctx: &Context) {
    }
    open spec fn spec_supports_static_fusion(&self) -> bool {
        true
    }

    open spec fn spec_fused(&self, text: Seq<char>, ctx: &Context) -> Seq<char> {
        if spec_is_nfc(text) {
            text
        } else {
            spec_nfc(text)
        }
    }

    open spec fn spec_fused_sound(&self, text: Seq<char>, ctx: &Context) -> bool {
        true
    }

    fn supports_static_fusion(&self) -> (r: bool) {
        true
    }

    fn fused_apply(&self, text: &str, ctx: &Context) -> (r: String) {
        if nfc_is_normalized(text) {
            let chars = str_chars(text);
            chars_to_string(&chars)
        } else {
            nfc_normalize(text)
        }
    }

    proof fn lemma_fused_is_apply(&self, text: Seq<char>, ctx: &Context) {
    }
}

/// The NFD form of a text, as `icu_normalizer` computes it.
pub uninterp spec fn spec_nfd(text: Seq<char>) -> Seq<char>;

/// Whether a text is already in NFD, as `icu_normalizer` decides it.
pub uninterp spec fn spec_is_nfd(text: Seq<char>) -> bool;

/// `normalize` of the NFD normalizer of `icu_normalizer`. The Unicode
/// algorithm and data are not restated here.
#[verifier::external_body]
fn nfd_normalize(text: &str) -> (r: String)
    ensures
        r@ == spec_nfd(text@),
{
    DecomposingNormalizer::new_nfd().normalize(text).into_owned()
}

/// `is_normalized` of the NFD normalizer: the source decides it by
/// normalizing and comparing, and `normalize` hands back a normalized text
/// unchanged.
#[verifier::external_body]
fn nfd_is_normalized(text: &str) -> (r: bool)
    ensures
        r == spec_is_nfd(text@),
        r ==> spec_nfd(text@) == text@,
{
    DecomposingNormalizer::new_nfd().is_normalized(text)
}

/// Unicode Normalization Form D: canonical decomposition.
#[derive(Debug, Default, Clone, Copy)]
pub struct NfdStage;

/// The NFD stage.
pub const NFD: NfdStage = NfdStage;

impl Stage for NfdStage {
    open spec fn spec_needs_apply(&self, text: Seq<char>, ctx: &Context) -> bool {
        !spec_is_nfd(text)
    }

    /// A text the normalizer's check finds normalized is kept as it is; the
    /// normalizer would hand it back unchanged.
    open spec fn spec_apply(&self, text: Seq<char>, ctx: &Context) -> Seq<char> {
        if spec_is_nfd(text) {
            text
        } else {
            spec_nfd(text)
        }
    }

    open spec fn spec_skip_sound(&self, text: Seq<char>, ctx: &Context) -> bool {
        true
    }

    fn name(&self) -> (r: &'static str)
        ensures
            r@ == "nfd"@,
    {
        "nfd"
    }

    fn needs_apply(&self, text: &str, ctx: &Context) -> (r: Result<bool, StageError>) {
        Ok(!nfd_is_normalized(text))
    }

    /// A normalized text comes back as it came.
    fn apply<'a>(&self, text: Cow<'a, str>, ctx: &Context) -> (r: Result<Cow<'a, str>, StageError>)
        ensures
            spec_is_nfd(text@) ==> r == Ok::<Cow<'a, str>, StageError>(text),
    {
        let normalized = {
            let t: &str = match &text {
                Cow::Borrowed(b) => b,
                Cow::Owned(o) => o.as_str(),
            };
            nfd_is_normalized(t)
        };
        if normalized {
            return Ok(text);
        }
        let t: &str = match &text {
            Cow::Borrowed(b) => b,
            Cow::Owned(o) => o.as_str(),
        };
        Ok(Cow::Owned(nfd_normalize(t)))
    }

    open spec fn spec_safe_skip(&self) -> bool {
        false
    }

    fn safe_skip_approximation(&self) -> (r: bool) {
        false
    }

    proof fn lemma_apply_when_not_needed(&self, text: Seq<char>, ctx: &Context) {
    }
}

impl StaticFusableStage for NfdStage {

    open spec fn spec_sound_everywhere(&self, ctx: &Context) -> bool {
        true
    }

    proof fn lemma_sound_everywhere(&self, text: Seq<char>, ctx: &Context) {
    }
    open spec fn spec_supports_static_fusion(&self) -> bool {
        true
    }

    open spec fn spec_fused(&self, text: Seq<char>, ctx: &Context) -> Seq<char> {
        if spec_is_nfd(text) {
            text
        } else {
            spec_nfd(text)
        }
    }

    open spec fn spec_fused_sound(&self, text: Seq<char>, ctx: &Context) -> bool {
        true
    }

    fn supports_static_fusion(&self) -> (r: bool) {
        true
    }

    fn fused_apply(&self, text: &str, ctx: &Context) -> (r: String) {
        if nfd_is_normalized(text) {
            let chars = str_chars(text);
            chars_to_string(&chars)
        } else {
            nfd_normalize(text)
        }
    }

    proof fn lemma_fused_is_apply(&self, text: Seq<char>, ctx: &Context) {
    }
}

/// The NFKC form of a text, as `icu_normalizer` computes it.
pub uninterp spec fn spec_nfkc(text: Seq<char>) -> Seq<char>;

/// Whether a text is already in NFKC, as `icu_normalizer` decides it.
pub uninterp spec fn spec_is_nfkc(text: Seq<char>) -> bool;

/// `normalize` of the NFKC normalizer of `icu_normalizer`. The Unicode
/// algorithm and data are not restated here.
#[verifier::external_body]
fn nfkc_normalize(text: &str) -> (r: String)
    ensures
        r@ == spec_nfkc(text@),
{
    ComposingNormalizer::new_nfkc().normalize(text).into_owned()
}

/// `is_normalized` of the NFKC normalizer: the source decides it by
/// normalizing and comparing, and `normalize` hands back a normalized text
/// unchanged.
#[verifier::external_body]
fn nfkc_is_normalized(text: &str) -> (r: bool)
    ensures
        r == spec_is_nfkc(text@),
        r ==> spec_nfkc(text@) == text@,
{
    ComposingNormalizer::new_nfkc().is_normalized(text)
}

/// Unicode Normalization Form KC: compatibility decomposition, then canonical composition.
#[derive(Debug, Default, Clone, Copy)]
pub struct NfkcStage;

/// The NFKC stage.
pub const NFKC: NfkcStage = NfkcStage;

impl Stage for NfkcStage {
    open spec fn spec_needs_apply(&self, text: Seq<char>, ctx: &Context) -> bool {
        !spec_is_nfkc(text)
    }

    /// A text the normalizer's check finds normalized is kept as it is; the
    /// normalizer would hand it back unchanged.
    open spec fn spec_apply(&self, text: Seq<char>, ctx: &Context) -> Seq<char> {
        if spec_is_nfkc(text) {
            text
        } else {
            spec_nfkc(text)
        }
    }

    open spec fn spec_skip_sound(&self, text: Seq<char>, ctx: &Context) -> bool {
        true
    }

    fn name(&self) -> (r: &'static str)
        ensures
            r@ == "nfkc"@,
    {
        "nfkc"
    }

    fn needs_apply(&self, text: &str, ctx: &Context) -> (r: Result<bool, StageError>) {
        Ok(!nfkc_is_normalized(text))
    }

    /// A normalized text comes back as it came.
    fn apply<'a>(&self, text: Cow<'a, str>, ctx: &Context) -> (r: Result<Cow<'a, str>, StageError>)
        ensures
            spec_is_nfkc(text@) ==> r == Ok::<Cow<'a, str>, StageError>(text),
    {
        let normalized = {
            let t: &str = match &text {
                Cow::Borrowed(b) => b,
                Cow::Owned(o) => o.as_str(),
            };
            nfkc_is_normalized(t)
        };
        if normalized {
            return Ok(text);
        }
        let t: &str = match &text {
            Cow::Borrowed(b) => b,
            Cow::Owned(o) => o.as_str(),
        };
        Ok(Cow::Owned(nfkc_normalize(t)))
    }

    open spec fn spec_safe_skip(&self) -> bool {
        false
    }

    fn safe_skip_approximation(&self) -> (r: bool) {
        false
    }

    proof fn lemma_apply_when_not_needed(&self, text: Seq<char>, ctx: &Context) {
    }
}

impl StaticFusableStage for NfkcStage {

    open spec fn spec_sound_everywhere(&self, ctx: &Context) -> bool {
        true
    }

    proof fn lemma_sound_everywhere(&self, text: Seq<char>, ctx: &Context) {
    }
    open spec fn spec_supports_static_fusion(&self) -> bool {
        true
    }

    open spec fn spec_fused(&self, text: Seq<char>, ctx: &Context) -> Seq<char> {
        if spec_is_nfkc(text) {
            text
        } else {
            spec_nfkc(text)
        }
    }

    open spec fn spec_fused_sound(&self, text: Seq<char>, ctx: &Context) -> bool {
        true
    }

    fn supports_static_fusion(&self) -> (r: bool) {
        true
    }

    fn fused_apply(&self, text: &str, ctx: &Context) -> (r: String) {
        if nfkc_is_normalized(text) {
            let chars = str_chars(text);
            chars_to_string(&chars)
        } else {
            nfkc_normalize(text)
        }
    }

    proof fn lemma_fused_is_apply(&self, text: Seq<char>, ctx: &Context) {
    }
}

/// The NFKD form of a text, as `icu_normalizer` computes it.
pub uninterp spec fn spec_nfkd(text: Seq<char>) -> Seq<char>;

/// Whether a text is already in NFKD, as `icu_normalizer` decides it.
pub uninterp spec fn spec_is_nfkd(text: Seq<char>) -> bool;

/// `normalize` of the NFKD normalizer of `icu_normalizer`. The Unicode
/// algorithm and data are not restated here.
#[verifier::external_body]
fn nfkd_normalize(text: &str) -> (r: String)
    ensures
        r@ == spec_nfkd(text@),
{
    DecomposingNormalizerBorrowed::new_nfkd().normalize(text).into_owned()
}

/// `is_normalized` of the NFKD normalizer: the source decides it by
/// normalizing and comparing, and `normalize` hands back a normalized text
/// unchanged.
#[verifier::external_body]
fn nfkd_is_normalized(text: &str) -> (r: bool)
    ensures
        r == spec_is_nfkd(text@),
        r ==> spec_nfkd(text@) == text@,
{
    DecomposingNormalizerBorrowed::new_nfkd().is_normalized(text)
}

/// Unicode Normalization Form KD: compatibility decomposition.
#[derive(Debug, Default, Clone, Copy)]
pub struct NfkdStage;

/// The NFKD stage.
pub const NFKD: NfkdStage = NfkdStage;

impl Stage for NfkdStage {
    open spec fn spec_needs_apply(&self, text: Seq<char>, ctx: &Context) -> bool {
        !spec_is_nfkd(text)
    }

    /// A text the normalizer's check finds normalized is kept as it is; the
    /// normalizer would hand it back unchanged.
    open spec fn spec_apply(&self, text: Seq<char>, ctx: &Context) -> Seq<char> {
        if spec_is_nfkd(text) {
            text
        } else {
            spec_nfkd(text)
        }
    }

    open spec fn spec_skip_sound(&self, text: Seq<char>, ctx: &Context) -> bool {
        true
    }

    fn name(&self) -> (r: &'static str)
        ensures
            r@ == "nfkd"@,
    {
        "nfkd"
    }

    fn needs_apply(&self, text: &str, ctx: &Context) -> (r: Result<bool, StageError>) {
        Ok(!nfkd_is_normalized(text))
    }

    /// A normalized text comes back as it came.
    fn apply<'a>(&self, text: Cow<'a, str>, ctx: &Context) -> (r: Result<Cow<'a, str>, StageError>)
        ensures
            spec_is_nfkd(text@) ==> r == Ok::<Cow<'a, str>, StageError>(text),
    {
        let normalized = {
            let t: &str = match &text {
                Cow::Borrowed(b) => b,
                Cow::Owned(o) => o.as_str(),
            };
            nfkd_is_normalized(t)
        };
        if normalized {
            return Ok(text);
        }
        let t: &str = match &text {
            Cow::Borrowed(b) => b,
            Cow::Owned(o) => o.as_str(),
        };
        Ok(Cow::Owned(nfkd_normalize(t)))
    }

    open spec fn spec_safe_skip(&self) -> bool {
        false
    }

    fn safe_skip_approximation(&self) -> (r: bool) {
        false
    }

    proof fn lemma_apply_when_not_needed(&self, text: Seq<char>, ctx: &Context) {
    }
}

impl StaticFusableStage for NfkdStage {

    open spec fn spec_sound_everywhere(&self, ctx: &Context) -> bool {
        true
    }

    proof fn lemma_sound_everywhere(&self, text: Seq<char>, ctx: &Context) {
    }
    open spec fn spec_supports_static_fusion(&self) -> bool {
        true
    }

    open spec fn spec_fused(&self, text: Seq<char>, ctx: &Context) -> Seq<char> {
        if spec_is_nfkd(text) {
            text
        } else {
            spec_nfkd(text)
        }
    }

    open spec fn spec_fused_sound(&self, text: Seq<char>, ctx: &Context) -> bool {
        true
    }

    fn supports_static_fusion(&self) -> (r: bool) {
        true
    }

    fn fused_apply(&self, text: &str, ctx: &Context) -> (r: String) {
        if nfkd_is_normalized(text) {
            let chars = str_chars(text);
            chars_to_string(&chars)
        } else {
            nfkd_normalize(text)
        }
    }

    proof fn lemma_fused_is_apply(&self, text: Seq<char>, ctx: &Context) {
    }
}

} // verus!
