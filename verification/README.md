# normy

Language-aware text normalization, verified with Verus.

A `Normy` holds a language context and a chain of stages (case folding,
whitespace normalization, diacritic removal, transliteration, word
segmentation, HTML and Markdown stripping, Unicode normalization forms, ...).
Each stage has a cheap quick check (`needs_apply`) and a transformation
(`apply`); a stage whose quick check says no is skipped, and a text that no
stage touches is handed back borrowed, without a copy.

Every stage states what it computes as a spec function over character
sequences, and the executable code is proved against it. Chains of stages
can run stage by stage or fused into one pass; the proofs show that both
give the same text wherever each stage's fused adapter agrees with its
`apply` and each quick check is sound. Every built-in stage's quick check is
sound on every text (but that of `sw::SegmentWord` where its language
segments), and every built-in adapter agrees with its `apply`
under rules without peek-ahead, which no built-in language asks for.

## Layout

- `src/lib.rs`: the crate root.
- `src/unicode.rs`, `src/text.rs`: character classes and string helpers.
- `src/lang.rs`, `src/lang/`: the per-language rule tables, their views, and
  the `LocaleBehavior` queries over them.
- `src/context.rs`: the language context a stage runs with.
- `src/stage.rs`, `src/stage/`: the `Stage` trait, character streams, and
  one module per stage.
- `src/process.rs`, `src/fused_process.rs`, `src/static_fused_process.rs`:
  chains of stages, run stage by stage, fused stage by stage, or fused by
  islands of stages.
- `src/normy.rs`: the `Normy` normalizer and its builders (chains fixed at
  compile time, or stages chosen at run time).
- `src/pipeline.rs`, `src/profile.rs`: run-time lists of stages and named
  presets.
- `src/small_vec.rs`: the small inline buffers used by the whitespace stage.
- `tests/`: executable tests, including concrete instances of the proved laws.
- `app/`: a small program around the library, and error types with
  `std::error::Error` for callers that want them.

## Laws proved in `src/`

- A text that no stage of a chain touches comes back unchanged and borrowed.
- Fused execution of a chain computes what stage-by-stage execution
  computes, on every text when every stage is sound everywhere under the
  chain's rules.
- A stage skipped on its quick check leaves the text unchanged.
- For several stages the quick check is exact: it says yes exactly when
  `apply` changes the text (punctuation normalization, diacritic removal;
  lowercasing and case folding under built-in rules; HTML stripping for text
  without `&`).
- Word segmentation only inserts delimiters (a space or a zero-width space)
  between two neighbouring word characters.
- HTML stripping is idempotent on text without `&` and without CDATA.
- Idempotence of trimming, control and format character stripping, width
  unification, punctuation normalization, CJK unigram spacing, word
  segmentation, whitespace normalization, diacritic removal and
  transliteration (for tables whose outputs are plain).
- Unicode whitespace trimming is `str::trim`.
- The lowercase stage maps each character to exactly one character, so the
  text keeps its length.
