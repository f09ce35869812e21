//! Ready-made profiles for common kinds of text.
use vstd::prelude::*;
use crate::process::{ChainedProcess, EmptyProcess};
use crate::profile::Profile;
use crate::stage::case_fold::CaseFold;
use crate::stage::lower_case::LowerCase;
use crate::stage::normalization::{NFKC, NfkcStage};
use crate::stage::normalize_punctuation::NormalizePunctuation;
use crate::stage::normalize_whitespace::{
    NormalizeWhitespace, collapse_whitespace, normalize_whitespace_full,
};
use crate::stage::remove_diacritics::RemoveDiacritics;
use crate::stage::segment_words::SegmentWords;
use crate::stage::strip_control_chars::StripControlChars;
use crate::stage::strip_format_controls::StripFormatControls;
use crate::stage::strip_html::StripHtml;
use crate::stage::strip_markdown::StripMarkdown;
use crate::stage::unify_width::UnifyWidth;

verus! {

/// Collapse and trim all Unicode whitespace, replacing it by a space.
pub open spec fn full_whitespace() -> NormalizeWhitespace {
    NormalizeWhitespace { collapse: true, trim: true, normalize_unicode: true, replacement_char: ' ' }
}

/// Collapse runs of ASCII whitespace into one space.
pub open spec fn collapse_only() -> NormalizeWhitespace {
    NormalizeWhitespace {
        collapse: true,
        trim: false,
        normalize_unicode: false,
        replacement_char: ' ',
    }
}

/// Ultra-fast path for clean or ASCII-only text: whitespace only.
pub fn ascii_fast() -> (r: Profile<ChainedProcess<NormalizeWhitespace, EmptyProcess>>)
    ensures
        r.name()@ == "ascii_fast"@,
        r.pipeline() == (ChainedProcess { stage: full_whitespace(), previous: EmptyProcess }),
{
    Profile::builder("ascii_fast")
        .add_stage(normalize_whitespace_full())
        .build()
}

/// Light normalization that keeps case and diacritics.
pub fn machine_translation() -> (r: Profile<ChainedProcess<NormalizeWhitespace, ChainedProcess<NormalizePunctuation, ChainedProcess<StripFormatControls, ChainedProcess<StripControlChars, ChainedProcess<NfkcStage, EmptyProcess>>>>>>)
    ensures
        r.name()@ == "machine_translation"@,
        r.pipeline() == (ChainedProcess { stage: full_whitespace(), previous: ChainedProcess { stage: NormalizePunctuation, previous: ChainedProcess { stage: StripFormatControls, previous: ChainedProcess { stage: StripControlChars, previous: ChainedProcess { stage: NfkcStage, previous: EmptyProcess } } } } }),
{
    Profile::builder("machine_translation")
        .add_stage(NFKC)
        .add_stage(StripControlChars)
        .add_stage(StripFormatControls)
        .add_stage(NormalizePunctuation)
        .add_stage(normalize_whitespace_full())
        .build()
}

/// For documentation tools: Markdown reduced to its text.
pub fn markdown_processing() -> (r: Profile<ChainedProcess<NormalizeWhitespace, ChainedProcess<StripFormatControls, ChainedProcess<StripControlChars, ChainedProcess<StripMarkdown, ChainedProcess<NfkcStage, EmptyProcess>>>>>>)
    ensures
        r.name()@ == "markdown_processing"@,
        r.pipeline() == (ChainedProcess { stage: full_whitespace(), previous: ChainedProcess { stage: StripFormatControls, previous: ChainedProcess { stage: StripControlChars, previous: ChainedProcess { stage: StripMarkdown, previous: ChainedProcess { stage: NfkcStage, previous: EmptyProcess } } } } }),
{
    Profile::builder("markdown_processing")
        .add_stage(NFKC)
        .add_stage(StripMarkdown)
        .add_stage(StripControlChars)
        .add_stage(StripFormatControls)
        .add_stage(normalize_whitespace_full())
        .build()
}

/// Clean text out of web pages, keeping case and diacritics.
pub fn web_scraping() -> (r: Profile<ChainedProcess<NormalizeWhitespace, ChainedProcess<UnifyWidth, ChainedProcess<StripFormatControls, ChainedProcess<StripControlChars, ChainedProcess<StripHtml, ChainedProcess<NfkcStage, EmptyProcess>>>>>>>)
    ensures
        r.name()@ == "web_scraping"@,
        r.pipeline() == (ChainedProcess { stage: full_whitespace(), previous: ChainedProcess { stage: UnifyWidth, previous: ChainedProcess { stage: StripFormatControls, previous: ChainedProcess { stage: StripControlChars, previous: ChainedProcess { stage: StripHtml, previous: ChainedProcess { stage: NfkcStage, previous: EmptyProcess } } } } } }),
{
    Profile::builder("web_scraping")
        .add_stage(NFKC)
        .add_stage(StripHtml)
        .add_stage(StripControlChars)
        .add_stage(StripFormatControls)
        .add_stage(UnifyWidth)
        .add_stage(normalize_whitespace_full())
        .build()
}

/// Search indexing: folded, stripped and segmented.
pub fn search() -> (r: Profile<ChainedProcess<SegmentWords, ChainedProcess<NormalizeWhitespace, ChainedProcess<StripFormatControls, ChainedProcess<StripMarkdown, ChainedProcess<StripHtml, ChainedProcess<RemoveDiacritics, ChainedProcess<CaseFold, ChainedProcess<LowerCase, ChainedProcess<NfkcStage, EmptyProcess>>>>>>>>>>)
    ensures
        r.name()@ == "search"@,
        r.pipeline() == (ChainedProcess { stage: SegmentWords, previous: ChainedProcess { stage: full_whitespace(), previous: ChainedProcess { stage: StripFormatControls, previous: ChainedProcess { stage: StripMarkdown, previous: ChainedProcess { stage: StripHtml, previous: ChainedProcess { stage: RemoveDiacritics, previous: ChainedProcess { stage: CaseFold, previous: ChainedProcess { stage: LowerCase, previous: ChainedProcess { stage: NfkcStage, previous: EmptyProcess } } } } } } } } }),
{
    Profile::builder("search")
        .add_stage(NFKC)
        .add_stage(LowerCase)
        .add_stage(CaseFold)
        .add_stage(RemoveDiacritics)
        .add_stage(StripHtml)
        .add_stage(StripMarkdown)
        .add_stage(StripFormatControls)
        .add_stage(normalize_whitespace_full())
        .add_stage(SegmentWords)
        .build()
}

/// Search over CJK text: width unified and words segmented.
pub fn cjk_search() -> (r: Profile<ChainedProcess<SegmentWords, ChainedProcess<NormalizeWhitespace, ChainedProcess<StripControlChars, ChainedProcess<StripFormatControls, ChainedProcess<UnifyWidth, ChainedProcess<NfkcStage, EmptyProcess>>>>>>>)
    ensures
        r.name()@ == "cjk_search"@,
        r.pipeline() == (ChainedProcess { stage: SegmentWords, previous: ChainedProcess { stage: full_whitespace(), previous: ChainedProcess { stage: StripControlChars, previous: ChainedProcess { stage: StripFormatControls, previous: ChainedProcess { stage: UnifyWidth, previous: ChainedProcess { stage: NfkcStage, previous: EmptyProcess } } } } } }),
{
    Profile::builder("cjk_search")
        .add_stage(NFKC)
        .add_stage(UnifyWidth)
        .add_stage(StripFormatControls)
        .add_stage(StripControlChars)
        .add_stage(normalize_whitespace_full())
        .add_stage(SegmentWords)
        .build()
}

/// Keeps as much as possible: compatibility form, no control characters, collapsed whitespace.
pub fn minimum() -> (r: Profile<ChainedProcess<NormalizeWhitespace, ChainedProcess<StripControlChars, ChainedProcess<NfkcStage, EmptyProcess>>>>)
    ensures
        r.name()@ == "minimum"@,
        r.pipeline() == (ChainedProcess { stage: collapse_only(), previous: ChainedProcess { stage: StripControlChars, previous: ChainedProcess { stage: NfkcStage, previous: EmptyProcess } } }),
{
    Profile::builder("minimum")
        .add_stage(NFKC)
        .add_stage(StripControlChars)
        .add_stage(collapse_whitespace())
        .build()
}

/// Maximum cleaning, for logs and user input.
pub fn maximum() -> (r: Profile<ChainedProcess<SegmentWords, ChainedProcess<NormalizeWhitespace, ChainedProcess<UnifyWidth, ChainedProcess<StripControlChars, ChainedProcess<StripFormatControls, ChainedProcess<StripMarkdown, ChainedProcess<StripHtml, ChainedProcess<RemoveDiacritics, ChainedProcess<CaseFold, ChainedProcess<LowerCase, ChainedProcess<NfkcStage, EmptyProcess>>>>>>>>>>>>)
    ensures
        r.name()@ == "maximum"@,
        r.pipeline() == (ChainedProcess { stage: SegmentWords, previous: ChainedProcess { stage: full_whitespace(), previous: ChainedProcess { stage: UnifyWidth, previous: ChainedProcess { stage: StripControlChars, previous: ChainedProcess { stage: StripFormatControls, previous: ChainedProcess { stage: StripMarkdown, previous: ChainedProcess { stage: StripHtml, previous: ChainedProcess { stage: RemoveDiacritics, previous: ChainedProcess { stage: CaseFold, previous: ChainedProcess { stage: LowerCase, previous: ChainedProcess { stage: NfkcStage, previous: EmptyProcess } } } } } } } } } } }),
{
    Profile::builder("maximum")
        .add_stage(NFKC)
        .add_stage(LowerCase)
        .add_stage(CaseFold)
        .add_stage(RemoveDiacritics)
        .add_stage(StripHtml)
        .add_stage(StripMarkdown)
        .add_stage(StripFormatControls)
        .add_stage(StripControlChars)
        .add_stage(UnifyWidth)
        .add_stage(normalize_whitespace_full())
        .add_stage(SegmentWords)
        .build()
}

/// Heavy normalization for noisy user-generated text.
pub fn social_media() -> (r: Profile<ChainedProcess<NormalizeWhitespace, ChainedProcess<NormalizePunctuation, ChainedProcess<StripFormatControls, ChainedProcess<StripControlChars, ChainedProcess<UnifyWidth, ChainedProcess<RemoveDiacritics, ChainedProcess<CaseFold, ChainedProcess<LowerCase, ChainedProcess<StripMarkdown, ChainedProcess<StripHtml, ChainedProcess<NfkcStage, EmptyProcess>>>>>>>>>>>>)
    ensures
        r.name()@ == "social_media"@,
        r.pipeline() == (ChainedProcess { stage: full_whitespace(), previous: ChainedProcess { stage: NormalizePunctuation, previous: ChainedProcess { stage: StripFormatControls, previous: ChainedProcess { stage: StripControlChars, previous: ChainedProcess { stage: UnifyWidth, previous: ChainedProcess { stage: RemoveDiacritics, previous: ChainedProcess { stage: CaseFold, previous: ChainedProcess { stage: LowerCase, previous: ChainedProcess { stage: StripMarkdown, previous: ChainedProcess { stage: StripHtml, previous: ChainedProcess { stage: NfkcStage, previous: EmptyProcess } } } } } } } } } } }),
{
    Profile::builder("social_media")
        .add_stage(NFKC)
        .add_stage(StripHtml)
        .add_stage(StripMarkdown)
        .add_stage(LowerCase)
        .add_stage(CaseFold)
        .add_stage(RemoveDiacritics)
        .add_stage(UnifyWidth)
        .add_stage(StripControlChars)
        .add_stage(StripFormatControls)
        .add_stage(NormalizePunctuation)
        .add_stage(normalize_whitespace_full())
        .build()
}

} // verus!
