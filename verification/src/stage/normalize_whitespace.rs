//! Whitespace normalization: collapse runs, trim edges, unify Unicode spaces.
use vstd::prelude::*;
use std::borrow::Cow;
use crate::context::Context;
use crate::stage::{Stage, StageError, StaticFusableStage, CharStream, StrChars, collect_stream};
use crate::text::{
    push_char, str_chars, spec_all_ascii, chars_all_ascii, lemma_ascii_char_byte,
    lemma_all_ascii_is_ascii_chars, spec_trim, spec_trim_start, spec_trim_end,
};
use crate::unicode::{spec_is_ascii_whitespace, spec_is_whitespace, is_ascii_whitespace, is_whitespace};
use crate::small_vec::{
    CharBuf, ByteBuf, char_buf_items, byte_buf_items, char_buf_new, char_buf_push, char_buf_len,
    char_buf_get, char_buf_clear, byte_buf_new, byte_buf_push, byte_buf_len, byte_buf_is_empty,
    byte_buf_get, byte_buf_clear,
};

verus! {

/// Normalizes whitespace with configurable collapse, trim, and Unicode handling.
///
/// - `collapse`: a run of two or more whitespace characters becomes one
///   `replacement_char`;
/// - `trim`: leading and trailing whitespace is removed;
/// - `normalize_unicode`: a modifier: every Unicode `White_Space` character
///   counts as whitespace, and a single non-ASCII one is replaced too. By
///   itself it does nothing.
///
/// Whitespace is what `char::is_ascii_whitespace` accepts (vertical tab is
/// not among it) and, with `normalize_unicode`, what `char::is_whitespace`
/// accepts. The quick check, `apply` on any text, and the fused adapters all
/// classify alike.
#[derive(Debug, Clone, Copy)]
pub struct NormalizeWhitespace {
    /// Collapse runs of whitespace into one character.
    pub collapse: bool,
    /// Remove leading and trailing whitespace.
    pub trim: bool,
    /// Treat all Unicode whitespace as whitespace.
    pub normalize_unicode: bool,
    /// The character emitted for a collapsed run.
    pub replacement_char: char,
}

/// Collapse, trim, and normalize all Unicode whitespace to a space.
pub fn normalize_whitespace_full() -> (r: NormalizeWhitespace)
    ensures
        r == (NormalizeWhitespace {
            collapse: true,
            trim: true,
            normalize_unicode: true,
            replacement_char: ' ',
        }),
{
    NormalizeWhitespace { collapse: true, trim: true, normalize_unicode: true, replacement_char: ' ' }
}

/// Collapse ASCII whitespace runs to a space, keeping the edges.
pub fn collapse_whitespace() -> (r: NormalizeWhitespace)
    ensures
        r == (NormalizeWhitespace {
            collapse: true,
            trim: false,
            normalize_unicode: false,
            replacement_char: ' ',
        }),
{
    NormalizeWhitespace {
        collapse: true,
        trim: false,
        normalize_unicode: false,
        replacement_char: ' ',
    }
}

/// Collapse all Unicode whitespace runs to a space, keeping the edges.
pub fn collapse_whitespace_unicode() -> (r: NormalizeWhitespace)
    ensures
        r == (NormalizeWhitespace {
            collapse: true,
            trim: false,
            normalize_unicode: true,
            replacement_char: ' ',
        }),
{
    NormalizeWhitespace { collapse: true, trim: false, normalize_unicode: true, replacement_char: ' ' }
}

/// Trim ASCII whitespace from both ends.
pub fn trim_whitespace() -> (r: NormalizeWhitespace)
    ensures
        r == (NormalizeWhitespace {
            collapse: false,
            trim: true,
            normalize_unicode: false,
            replacement_char: ' ',
        }),
{
    NormalizeWhitespace { collapse: false, trim: true, normalize_unicode: false, replacement_char: ' ' }
}

/// Trim all Unicode whitespace from both ends.
pub fn trim_whitespace_unicode() -> (r: NormalizeWhitespace)
    ensures
        r == (NormalizeWhitespace {
            collapse: false,
            trim: true,
            normalize_unicode: true,
            replacement_char: ' ',
        }),
{
    NormalizeWhitespace { collapse: false, trim: true, normalize_unicode: true, replacement_char: ' ' }
}

impl Default for NormalizeWhitespace {
    fn default() -> (r: NormalizeWhitespace)
        ensures
            r == (NormalizeWhitespace {
                collapse: true,
                trim: true,
                normalize_unicode: true,
                replacement_char: ' ',
            }),
    {
        normalize_whitespace_full()
    }
}

impl NormalizeWhitespace {
    /// Whitespace, for this configuration.
    pub open spec fn spec_is_ws(&self, c: char) -> bool {
        spec_is_ascii_whitespace(c) || (self.normalize_unicode && spec_is_whitespace(c))
    }

    /// Whitespace that is replaced even when it stands alone.
    pub open spec fn spec_needs_rep(&self, c: char) -> bool {
        !spec_is_ascii_whitespace(c) && self.normalize_unicode && spec_is_whitespace(c)
    }

    /// What a kept run of whitespace becomes.
    pub open spec fn spec_emit_run(&self, run: Seq<char>) -> Seq<char> {
        if self.collapse {
            if run.len() >= 2 || self.spec_needs_rep(run[0]) {
                seq![self.replacement_char]
            } else {
                seq![run[0]]
            }
        } else {
            run
        }
    }

    /// The output for the rest of the text, given whether a non-whitespace
    /// character has been seen and the whitespace run still pending.
    pub open spec fn spec_scan(&self, text: Seq<char>, started: bool, run: Seq<
        char,
    >) -> Seq<char>
        decreases text.len(),
    {
        if text.len() == 0 {
            if run.len() > 0 && !self.trim {
                self.spec_emit_run(run)
            } else {
                Seq::empty()
            }
        } else {
            let c = text[0];
            if self.spec_is_ws(c) {
                self.spec_scan(text.drop_first(), started, run.push(c))
            } else {
                let lead = if run.len() > 0 && (!self.trim || started) {
                    self.spec_emit_run(run)
                } else {
                    Seq::empty()
                };
                lead + seq![c] + self.spec_scan(text.drop_first(), true, Seq::empty())
            }
        }
    }

    /// The normalized text.
    pub open spec fn spec_normalize(&self, text: Seq<char>) -> Seq<char> {
        self.spec_scan(text, false, Seq::empty())
    }

    /// Two neighbouring whitespace characters.
    pub open spec fn spec_has_ws_pair(&self, text: Seq<char>) -> bool {
        exists|i: int|
            0 <= i < text.len() - 1 && #[trigger] self.spec_is_ws(text[i]) && self.spec_is_ws(text[i + 1],
            )
    }

    /// The quick check: whitespace at an edge when trimming; neighbouring
    /// whitespace, or whitespace that is replaced even when it stands alone,
    /// when collapsing.
    pub open spec fn spec_needs(&self, text: Seq<char>) -> bool {
        if text.len() == 0 || (!self.trim && !self.collapse) {
            false
        } else {
            ||| self.trim && (self.spec_is_ws(text[0]) || self.spec_is_ws(text.last()))
            ||| self.collapse && (self.spec_has_ws_pair(text) || exists|i: int|
                0 <= i < text.len() && self.spec_needs_rep(#[trigger] text[i]))
        }
    }
}

/// The pending run, as a character sequence: the first character, then the tail.
pub open spec fn spec_run_of(first: Option<char>, tail: Seq<char>) -> Seq<char> {
    match first {
        Some(f) => seq![f] + tail,
        None => Seq::empty(),
    }
}

/// Bytes read as the ASCII characters they encode.
pub open spec fn spec_bytes_as_chars(b: Seq<u8>) -> Seq<char> {
    b.map_values(|x: u8| x as char)
}


impl NormalizeWhitespace {
    /// Trim all Unicode whitespace from both ends, leaving the inside alone.
    pub fn trim_only() -> (r: NormalizeWhitespace)
        ensures
            r == (NormalizeWhitespace {
                collapse: false,
                trim: true,
                normalize_unicode: true,
                replacement_char: ' ',
            }),
    {
        trim_whitespace_unicode()
    }

    /// Enables Unicode mode.
    pub fn with_normalize_unicode(&mut self)
        ensures
            *final(self) == (NormalizeWhitespace { normalize_unicode: true, ..*old(self) }),
    {
        self.normalize_unicode = true
    }

    /// The same configuration with another replacement character.
    pub fn replace_whitespace_with(self, c: char) -> (r: NormalizeWhitespace)
        ensures
            r == (NormalizeWhitespace { replacement_char: c, ..self }),
    {
        let mut r = self;
        r.replacement_char = c;
        r
    }

    /// Whether `c` is whitespace, and
    /// whether it is replaced even when it stands alone.
    fn check_whitespace_and_single_char_replacement(&self, c: char) -> (r: (bool, bool))
        ensures
            r.0 == self.spec_is_ws(c),
            r.1 == self.spec_needs_rep(c),
    {
        if is_ascii_whitespace(c) {
            (true, false)
        } else if self.normalize_unicode && is_whitespace(c) {
            (true, true)
        } else {
            (false, false)
        }
    }

    fn is_whitespace_for_config(&self, c: char) -> (r: bool)
        ensures
            r == self.spec_is_ws(c),
    {
        if self.normalize_unicode {
            is_whitespace(c)
        } else {
            is_ascii_whitespace(c)
        }
    }

    /// Appends what a kept run becomes.
    fn emit_run_full(&self, out: &mut String, first: char, first_rep: bool, tail: &CharBuf)
        requires
            first_rep == self.spec_needs_rep(first),
        ensures
            final(out)@ == old(out)@ + self.spec_emit_run(seq![first] + char_buf_items(*tail),
            ),
    {
        let ghost run = seq![first] + char_buf_items(*tail);
        let len = char_buf_len(tail);
        if self.collapse {
            if len == 0 {
                if first_rep {
                    push_char(out, self.replacement_char);
                } else {
                    push_char(out, first);
                }
            } else {
                push_char(out, self.replacement_char);
            }
        } else {
            let ghost o0 = out@;
            push_char(out, first);
            for j in 0..len
                invariant
                    len == char_buf_items(*tail).len(),
                    run == seq![first] + char_buf_items(*tail),
                    out@ == o0 + run.take(j + 1),
            {
                let c = char_buf_get(tail, j);
                push_char(out, c);
                assert(run.take(j + 2) =~= run.take(j + 1).push(c));
            }
            assert(run.take(len + 1) =~= run);
        }
    }

    /// Appends what a kept run of ASCII whitespace bytes becomes.
    fn emit_run_ascii(&self, out: &mut String, pending: &ByteBuf)
        requires
            byte_buf_items(*pending).len() > 0,
        ensures
            final(out)@ == old(out)@ + self.spec_emit_run(spec_bytes_as_chars(byte_buf_items(*pending)),
            ),
    {
        let ghost run = spec_bytes_as_chars(byte_buf_items(*pending));
        let len = byte_buf_len(pending);
        if self.collapse {
            if len >= 2 {
                push_char(out, self.replacement_char);
            } else {
                let b = byte_buf_get(pending, 0);
                assert(run[0] == b as char);
                let (_, single) = self.check_whitespace_and_single_char_replacement(b as char);
                if single {
                    push_char(out, self.replacement_char);
                } else {
                    push_char(out, b as char);
                }
            }
        } else {
            let ghost o0 = out@;
            for j in 0..len
                invariant
                    len == byte_buf_items(*pending).len(),
                    run == spec_bytes_as_chars(byte_buf_items(*pending)),
                    out@ == o0 + run.take(j as int),
            {
                let b = byte_buf_get(pending, j);
                push_char(out, b as char);
                assert(run.take(j + 1) =~= run.take(j as int).push(b as char));
            }
            assert(run.take(len as int) =~= run);
        }
    }

    /// The character-level transformation.
    fn apply_full(&self, text: &str) -> (r: String)
        ensures
            r@ == self.spec_scan(text@, false, Seq::empty()),
    {
        let chars = str_chars(text);
        let n = chars.len();
        let mut result = String::new();
        let mut started = false;
        let mut tail = char_buf_new();
        let mut first_ws_char: Option<char> = None;
        let mut first_ws_needs_replacement = false;
        assert(text@.skip(0) =~= text@);
        for i in 0..n
            invariant
                n == chars@.len(),
                chars@ == text@,
                self.spec_scan(text@, false, Seq::empty()) == result@ + self.spec_scan(text@.skip(i as int),
                    started,
                    spec_run_of(first_ws_char, char_buf_items(tail)),
                ),
                first_ws_char is None ==> char_buf_items(tail).len() == 0,
                first_ws_char matches Some(f) ==> first_ws_needs_replacement
                    == self.spec_needs_rep(f),
        {
            let c = chars[i];
            proof {
                assert(text@.skip(i as int).drop_first() =~= text@.skip(i + 1));
                assert(text@.skip(i as int)[0] == c);
            }
            let (is_ws, needs_replacement) = self.check_whitespace_and_single_char_replacement(c);
            if is_ws {
                let ghost run0 = spec_run_of(first_ws_char, char_buf_items(tail));
                if first_ws_char.is_none() {
                    first_ws_char = Some(c);
                    first_ws_needs_replacement = needs_replacement;
                    assert(spec_run_of(first_ws_char, char_buf_items(tail)) =~= run0.push(c));
                } else {
                    char_buf_push(&mut tail, c);
                    assert(spec_run_of(first_ws_char, char_buf_items(tail)) =~= run0.push(c));
                }
            } else {
                match first_ws_char {
                    Some(first) => {
                        let should_emit = !self.trim || started;
                        if should_emit {
                            self.emit_run_full(&mut result, first, first_ws_needs_replacement, &tail);
                        }
                        first_ws_char = None;
                        first_ws_needs_replacement = false;
                        char_buf_clear(&mut tail);
                    },
                    None => {},
                }
                push_char(&mut result, c);
                started = true;
            }
        }
        match first_ws_char {
            Some(first) => {
                if !self.trim {
                    self.emit_run_full(&mut result, first, first_ws_needs_replacement, &tail);
                }
            },
            None => {},
        }
        result
    }

    /// The transformation of pure ASCII text, read byte by byte.
    fn apply_ascii_fast(&self, text: &str) -> (r: String)
        requires
            spec_all_ascii(text@),
        ensures
            r@ == self.spec_scan(text@, false, Seq::empty()),
    {
        let bytes = text.as_bytes();
        proof {
            lemma_all_ascii_is_ascii_chars(text@);
            vstd::utf8::is_ascii_chars_encode_utf8(text@);
        }
        let n = bytes.len();
        let mut result = String::new();
        let mut started = false;
        let mut pending_ws = byte_buf_new();
        assert(text@.skip(0) =~= text@);
        assert(spec_bytes_as_chars(byte_buf_items(pending_ws)) =~= Seq::<char>::empty());
        for i in 0..n
            invariant
                n == bytes@.len(),
                n == text@.len(),
                spec_all_ascii(text@),
                forall|k: int| 0 <= k < n ==> bytes@[k] == #[trigger] text@[k] as u8,
                self.spec_scan(text@, false, Seq::empty()) == result@ + self.spec_scan(text@.skip(i as int),
                    started,
                    spec_bytes_as_chars(byte_buf_items(pending_ws)),
                ),
        {
            let b = bytes[i];
            let ghost c = text@[i as int];
            proof {
                assert(text@.skip(i as int).drop_first() =~= text@.skip(i + 1));
                assert(text@.skip(i as int)[0] == c);
                assert((c as u32) < 0x80);
                lemma_ascii_char_byte(c);
                assert(b == c as u8);
            }
            let is_ws = self.is_whitespace_for_config(b as char);
            if is_ws {
                let ghost run0 = spec_bytes_as_chars(byte_buf_items(pending_ws));
                byte_buf_push(&mut pending_ws, b);
                assert(spec_bytes_as_chars(byte_buf_items(pending_ws)) =~= run0.push(c));
            } else {
                if !byte_buf_is_empty(&pending_ws) {
                    let should_emit = !self.trim || started;
                    if should_emit {
                        self.emit_run_ascii(&mut result, &pending_ws);
                    }
                }
                push_char(&mut result, b as char);
                byte_buf_clear(&mut pending_ws);
                assert(spec_bytes_as_chars(byte_buf_items(pending_ws)) =~= Seq::<char>::empty());
                started = true;
            }
        }
        if !byte_buf_is_empty(&pending_ws) {
            if !self.trim {
                self.emit_run_ascii(&mut result, &pending_ws);
            }
        }
        result
    }
}

impl NormalizeWhitespace {
    fn has_ws_pair(&self, chars: &Vec<char>) -> (r: bool)
        ensures
            r == self.spec_has_ws_pair(chars@),
    {
        let n = chars.len();
        let mut prev_ws = false;
        for i in 0..n
            invariant
                n == chars@.len(),
                prev_ws == (i > 0 && self.spec_is_ws(chars@[i - 1])),
                forall|j: int|
                    0 <= j < i - 1 ==> !(#[trigger] self.spec_is_ws(chars@[j])
                        && self.spec_is_ws(chars@[j + 1])),
        {
            let c = chars[i];
            let is_ws = self.is_whitespace_for_config(c);
            if is_ws && prev_ws {
                assert(self.spec_is_ws(chars@[i - 1]) && self.spec_is_ws(chars@[(i - 1) + 1],
                ));
                return true;
            }
            prev_ws = is_ws;
        }
        false
    }

    fn needs_whitespace_work(&self, text: &str) -> (r: bool)
        ensures
            r == self.spec_needs(text@),
    {
        let chars = str_chars(text);
        let n = chars.len();
        if n == 0 || (!self.trim && !self.collapse) {
            return false;
        }
        if self.trim {
            if self.is_whitespace_for_config(chars[0]) || self.is_whitespace_for_config(
                chars[n - 1],
            ) {
                return true;
            }
        }
        if self.collapse {
            if self.has_ws_pair(&chars) {
                return true;
            }
            for i in 0..n
                invariant
                    n == chars@.len(),
                    chars@ == text@,
                    n > 0,
                    self.collapse,
                    !self.trim || !(self.spec_is_ws(text@[0]) || self.spec_is_ws(text@.last())),
                    !self.spec_has_ws_pair(text@),
                    forall|j: int| 0 <= j < i ==> !self.spec_needs_rep(#[trigger] text@[j]),
            {
                let (_, single) = self.check_whitespace_and_single_char_replacement(chars[i]);
                if single {
                    assert(self.spec_needs_rep(text@[i as int]));
                    return true;
                }
            }
        }
        false
    }

    /// The text is left as it is when no edge, pair or stand-alone
    /// replacement calls for work.
    proof fn lemma_scan_identity(&self, s: Seq<char>, started: bool, run: Seq<char>)
        requires
            forall|k: int| 0 <= k < run.len() ==> self.spec_is_ws(#[trigger] run[k]),
            self.collapse ==> run.len() <= 1,
            self.collapse && run.len() == 1 && self.spec_needs_rep(run[0]) ==> run[0]
                == self.replacement_char,
            self.collapse && run.len() == 1 && s.len() > 0 ==> !self.spec_is_ws(s[0]),
            self.collapse ==> !self.spec_has_ws_pair(s),
            self.collapse ==> forall|k: int|
                0 <= k < s.len() && self.spec_needs_rep(#[trigger] s[k]) ==> s[k]
                    == self.replacement_char,
            self.trim && !started ==> run.len() == 0 && (s.len() > 0 ==> !self.spec_is_ws(s[0],
            )),
            self.trim && s.len() > 0 ==> !self.spec_is_ws(s.last()),
            self.trim && s.len() == 0 ==> run.len() == 0,
        ensures
            self.spec_scan(s, started, run) == run + s,
        decreases s.len(),
    {
        if s.len() == 0 {
            if run.len() > 0 && !self.trim {
                if self.collapse {
                    assert(seq![run[0]] =~= run);
                }
            }
            assert(run + s =~= run);
        } else {
            let c = s[0];
            let rest = s.drop_first();
            if self.collapse {
                assert forall|i: int| 0 <= i < rest.len() - 1 implies !(#[trigger] self.spec_is_ws(rest[i],
                ) && self.spec_is_ws(rest[i + 1])) by {
                    if self.spec_is_ws(rest[i]) && self.spec_is_ws(rest[i + 1]) {
                        assert(self.spec_is_ws(s[i + 1]) && self.spec_is_ws(s[(i + 1) + 1],
                        ));
                    }
                }
            }
            if self.spec_is_ws(c) {
                if self.collapse && rest.len() > 0 {
                    if self.spec_is_ws(rest[0]) {
                        assert(self.spec_is_ws(s[0]) && self.spec_is_ws(s[0int + 1]));
                    }
                }
                if self.collapse && self.spec_needs_rep(s[0]) {
                    assert(s[0] == self.replacement_char);
                }
                if rest.len() > 0 {
                    assert(rest.last() == s.last());
                }
                let run2 = run.push(c);
                assert forall|k: int| 0 <= k < run2.len() implies self.spec_is_ws(#[trigger] run2[k],
                ) by {
                    if k < run.len() {
                        assert(run2[k] == run[k]);
                    }
                }
                self.lemma_scan_identity(rest, started, run2);
                assert(run2 + rest =~= run + s);
            } else {
                if run.len() > 0 && (!self.trim || started) {
                    if self.collapse {
                        assert(seq![run[0]] =~= run);
                    }
                }
                if rest.len() > 0 {
                    assert(rest.last() == s.last());
                }
                self.lemma_scan_identity(rest, true, Seq::empty());
                assert(Seq::<char>::empty() + rest =~= rest);
                assert(run + seq![c] + rest =~= run + s);
            }
        }
    }

    /// Text that a pass leaves as it is: no neighbouring whitespace and no
    /// stand-alone whitespace other than the replacement character that calls
    /// for replacement (when collapsing), and whitespace at neither edge (when
    /// trimming).
    pub open spec fn spec_is_settled(&self, t: Seq<char>) -> bool {
        &&& self.collapse ==> !self.spec_has_ws_pair(t)
        &&& self.collapse ==> forall|k: int|
            0 <= k < t.len() && self.spec_needs_rep(#[trigger] t[k]) ==> t[k]
                == self.replacement_char
        &&& self.trim && t.len() > 0 ==> !self.spec_is_ws(t[0]) && !self.spec_is_ws(t.last())
    }

    /// What the scan emits is settled; its first character is no whitespace
    /// when trimming before any non-whitespace was seen.
    proof fn lemma_scan_settled(&self, s: Seq<char>, started: bool, run: Seq<char>)
        ensures
            self.collapse ==> !self.spec_has_ws_pair(self.spec_scan(s, started, run)),
            self.collapse ==> forall|k: int|
                0 <= k < self.spec_scan(s, started, run).len() && self.spec_needs_rep(#[trigger] self.spec_scan(s, started, run)[k],
                ) ==> self.spec_scan(s, started, run)[k] == self.replacement_char,
            self.trim && self.spec_scan(s, started, run).len() > 0 ==> !self.spec_is_ws(self.spec_scan(s, started, run).last(),
            ),
            self.trim && !started && self.spec_scan(s, started, run).len() > 0
                ==> !self.spec_is_ws(self.spec_scan(s, started, run)[0]),
        decreases s.len(),
    {
        let out = self.spec_scan(s, started, run);
        if s.len() == 0 {
            if self.collapse && out.len() > 0 {
                assert(out.len() == 1);
                if self.spec_needs_rep(out[0]) {
                    if !(run.len() >= 2 || self.spec_needs_rep(run[0])) {
                        assert(out[0] == run[0]);
                    }
                }
            }
        } else {
            let c = s[0];
            let rest = s.drop_first();
            if self.spec_is_ws(c) {
                self.lemma_scan_settled(rest, started, run.push(c));
            } else {
                let lead = if run.len() > 0 && (!self.trim || started) {
                    self.spec_emit_run(run)
                } else {
                    Seq::empty()
                };
                let tail = self.spec_scan(rest, true, Seq::empty());
                self.lemma_scan_settled(rest, true, Seq::empty());
                assert(out == lead + seq![c] + tail);
                let n = lead.len() as int;
                assert(!self.spec_needs_rep(c));
                if self.collapse {
                    assert(n <= 1);
                    assert forall|i: int|
                        0 <= i < out.len() - 1 implies !(#[trigger] self.spec_is_ws(out[i],
                    ) && self.spec_is_ws(out[i + 1])) by {
                        if i == n - 1 {
                            assert(out[i + 1] == c);
                        } else if i == n {
                            assert(out[i] == c);
                        } else {
                            assert(out[i] == tail[i - n - 1]);
                            assert(out[i + 1] == tail[(i - n - 1) + 1]);
                        }
                    }
                    assert forall|k: int|
                        0 <= k < out.len() && self.spec_needs_rep(#[trigger] out[k],
                    ) implies out[k] == self.replacement_char by {
                        if k < n {
                            assert(out[k] == lead[0]);
                            if !(run.len() >= 2 || self.spec_needs_rep(run[0])) {
                                assert(lead[0] == run[0]);
                            }
                        } else if k == n {
                            assert(out[k] == c);
                        } else {
                            assert(out[k] == tail[k - n - 1]);
                        }
                    }
                }
                if tail.len() > 0 {
                    assert(out.last() == tail.last());
                } else {
                    assert(out.last() == c);
                }
                if self.trim && !started {
                    assert(lead.len() == 0);
                    assert(out[0] == c);
                }
            }
        }
    }

    /// Normalized text holds no
    /// neighbouring whitespace when collapsing, no whitespace that calls for
    /// replacement other than the replacement character, and no whitespace
    /// at its edges when trimming.
    pub proof fn lemma_normalize_settled(&self, text: Seq<char>)
        ensures
            self.spec_is_settled(self.spec_normalize(text)),
    {
        self.lemma_scan_settled(text, false, Seq::empty());
    }

    /// The quick check answers yes exactly when normalizing changes the text,
    /// provided the replacement character is not itself whitespace that is
    /// replaced when it stands alone.
    pub proof fn lemma_needs_is_exact(&self, text: Seq<char>)
        requires
            !self.spec_needs_rep(self.replacement_char),
        ensures
            self.spec_needs(text) == (self.spec_normalize(text) != text),
    {
        let out = self.spec_normalize(text);
        if !self.spec_needs(text) {
            self.lemma_scan_identity(text, false, Seq::empty());
            assert(Seq::<char>::empty() + text =~= text);
        } else {
            self.lemma_normalize_settled(text);
            if out == text {
                if self.collapse && !self.spec_has_ws_pair(text) {
                    let i = choose|i: int| 0 <= i < text.len() && self.spec_needs_rep(#[trigger] text[i]);
                    assert(out[i] == self.replacement_char);
                }
            }
        }
    }

    /// Trailing whitespace after a non-whitespace character is all that
    /// trimming the end removes.
    proof fn lemma_trim_end_after(a: Seq<char>, q: Seq<char>)
        requires
            a.len() > 0,
            !spec_is_whitespace(a.last()),
        ensures
            spec_trim_end(a + q) == a + spec_trim_end(q),
        decreases q.len(),
    {
        if q.len() == 0 {
            assert(a + q =~= a);
            assert(a + Seq::<char>::empty() =~= a);
        } else {
            assert((a + q).last() == q.last());
            if spec_is_whitespace(q.last()) {
                assert((a + q).drop_last() =~= a + q.drop_last());
                Self::lemma_trim_end_after(a, q.drop_last());
            }
        }
    }

    /// Whitespace alone trims to nothing.
    proof fn lemma_trim_end_all_ws(run: Seq<char>)
        requires
            forall|k: int| 0 <= k < run.len() ==> spec_is_whitespace(#[trigger] run[k]),
        ensures
            spec_trim_end(run) == Seq::<char>::empty(),
        decreases run.len(),
    {
        if run.len() > 0 {
            assert(spec_is_whitespace(run[run.len() - 1]));
            assert forall|k: int| 0 <= k < run.drop_last().len() implies spec_is_whitespace(
                #[trigger] run.drop_last()[k],
            ) by {
                assert(run.drop_last()[k] == run[k]);
            }
            Self::lemma_trim_end_all_ws(run.drop_last());
        }
    }

    /// Trimming without collapsing, once past the first non-whitespace
    /// character: the pending run and the rest, their trailing whitespace cut.
    proof fn lemma_scan_trim_started(&self, s: Seq<char>, run: Seq<char>)
        requires
            self.trim,
            !self.collapse,
            self.normalize_unicode,
            forall|k: int| 0 <= k < run.len() ==> spec_is_whitespace(#[trigger] run[k]),
        ensures
            self.spec_scan(s, true, run) == spec_trim_end(run + s),
        decreases s.len(),
    {
        if s.len() == 0 {
            Self::lemma_trim_end_all_ws(run);
            assert(run + s =~= run);
        } else {
            let c = s[0];
            let rest = s.drop_first();
            if self.spec_is_ws(c) {
                let run2 = run.push(c);
                assert forall|k: int| 0 <= k < run2.len() implies spec_is_whitespace(
                    #[trigger] run2[k],
                ) by {
                    if k < run.len() {
                        assert(run2[k] == run[k]);
                    }
                }
                self.lemma_scan_trim_started(rest, run2);
                assert(run2 + rest =~= run + s);
            } else {
                self.lemma_scan_trim_started(rest, Seq::empty());
                assert(Seq::<char>::empty() + rest =~= rest);
                let a = run + seq![c];
                assert(a.last() == c);
                Self::lemma_trim_end_after(a, rest);
                assert(a + rest =~= run + s);
                if run.len() == 0 {
                    assert(Seq::<char>::empty() + seq![c] =~= a);
                }
            }
        }
    }

    /// Trimming without collapsing, before any non-whitespace character:
    /// both ends stripped.
    proof fn lemma_scan_trim_unstarted(&self, s: Seq<char>, run: Seq<char>)
        requires
            self.trim,
            !self.collapse,
            self.normalize_unicode,
        ensures
            self.spec_scan(s, false, run) == spec_trim(s),
        decreases s.len(),
    {
        if s.len() > 0 {
            let c = s[0];
            let rest = s.drop_first();
            if self.spec_is_ws(c) {
                self.lemma_scan_trim_unstarted(rest, run.push(c));
            } else {
                self.lemma_scan_trim_started(rest, Seq::empty());
                assert(Seq::<char>::empty() + rest =~= rest);
                Self::lemma_trim_end_after(seq![c], rest);
                assert(seq![c] + rest =~= s);
                assert(Seq::<char>::empty() + seq![c] + spec_trim_end(rest) =~= seq![c]
                    + spec_trim_end(rest));
            }
        }
    }

    /// With trimming and Unicode whitespace but no collapsing, the stage is
    /// `str::trim`: both ends stripped of `White_Space` characters, the
    /// inside kept.
    pub proof fn lemma_trim_unicode_is_str_trim(&self, text: Seq<char>)
        requires
            self.trim,
            !self.collapse,
            self.normalize_unicode,
        ensures
            self.spec_normalize(text) == spec_trim(text),
    {
        self.lemma_scan_trim_unstarted(text, Seq::empty());
    }

    /// Normalizing a second time changes nothing.
    pub proof fn lemma_normalize_idempotent(&self, text: Seq<char>)
        ensures
            self.spec_normalize(self.spec_normalize(text)) == self.spec_normalize(text),
    {
        let out = self.spec_normalize(text);
        self.lemma_normalize_settled(text);
        self.lemma_scan_identity(out, false, Seq::empty());
        assert(Seq::<char>::empty() + out =~= out);
    }
}

impl Stage for NormalizeWhitespace {
    open spec fn spec_needs_apply(&self, text: Seq<char>, ctx: &Context) -> bool {
        self.spec_needs(text)
    }

    open spec fn spec_apply(&self, text: Seq<char>, ctx: &Context) -> Seq<char> {
        self.spec_normalize(text)
    }

    open spec fn spec_skip_sound(&self, text: Seq<char>, ctx: &Context) -> bool {
        true
    }

    fn name(&self) -> (r: &'static str)
        ensures
            r@ == "normalize_whitespace"@,
    {
        "normalize_whitespace"
    }

    fn needs_apply(&self, text: &str, ctx: &Context) -> (r: Result<bool, StageError>) {
        Ok(self.needs_whitespace_work(text))
    }

    fn apply<'a>(&self, text: Cow<'a, str>, ctx: &Context) -> (r: Result<Cow<'a, str>, StageError>) {
        let s: &str = match &text {
            Cow::Borrowed(b) => b,
            Cow::Owned(o) => o.as_str(),
        };
        let chars = str_chars(s);
        if chars_all_ascii(&chars) {
            Ok(Cow::Owned(self.apply_ascii_fast(s)))
        } else {
            Ok(Cow::Owned(self.apply_full(s)))
        }
    }

    open spec fn spec_safe_skip(&self) -> bool {
        false
    }

    fn safe_skip_approximation(&self) -> (r: bool) {
        false
    }

    proof fn lemma_apply_when_not_needed(&self, text: Seq<char>, ctx: &Context) {
        if !self.spec_needs_apply(text, ctx) {
            self.lemma_scan_identity(text, false, Seq::empty());
            assert(Seq::<char>::empty() + text =~= text);
        }
    }
}

/// A pending run summarized by its length (counted up to two) and its first character.
pub open spec fn spec_canon_run(count: usize, first: char) -> Seq<char> {
    if count == 0 {
        Seq::empty()
    } else if count == 1 {
        seq![first]
    } else {
        seq![first, first]
    }
}

/// Two runs that a collapsing scan cannot tell apart.
pub open spec fn spec_runs_alike(r1: Seq<char>, r2: Seq<char>) -> bool {
    &&& (r1.len() == 0 <==> r2.len() == 0)
    &&& r1.len() > 0 ==> r1[0] == r2[0] && (r1.len() >= 2 <==> r2.len() >= 2)
}

impl NormalizeWhitespace {
    /// When collapsing, a run matters only by its first character and
    /// whether it is longer than one.
    proof fn lemma_scan_runs_alike(
        &self,
        text: Seq<char>,
        started: bool,
        r1: Seq<char>,
        r2: Seq<char>,
    )
        requires
            self.collapse,
            spec_runs_alike(r1, r2),
        ensures
            self.spec_scan(text, started, r1) == self.spec_scan(text, started, r2),
        decreases text.len(),
    {
        if text.len() > 0 {
            let c = text[0];
            if self.spec_is_ws(c) {
                self.lemma_scan_runs_alike(text.drop_first(), started, r1.push(c), r2.push(c));
            } else {
                self.lemma_scan_runs_alike(text.drop_first(),
                    true,
                    Seq::empty(),
                    Seq::empty(),
                );
            }
        }
    }

    /// Scanning a run of whitespace moves it into the pending run.
    proof fn lemma_scan_ws_prefix(
        &self,
        ws: Seq<char>,
        rest: Seq<char>,
        started: bool,
        run: Seq<char>,
    )
        requires
            forall|k: int| 0 <= k < ws.len() ==> self.spec_is_ws(#[trigger] ws[k]),
        ensures
            self.spec_scan(ws + rest, started, run) == self.spec_scan(rest,
                started,
                run + ws,
            ),
        decreases ws.len(),
    {
        if ws.len() == 0 {
            assert(ws + rest =~= rest);
            assert(run + ws =~= run);
        } else {
            assert((ws + rest).drop_first() =~= ws.drop_first() + rest);
            assert((ws + rest)[0] == ws[0]);
            assert forall|k: int| 0 <= k < ws.drop_first().len() implies self.spec_is_ws(#[trigger] ws.drop_first()[k],
            ) by {
                assert(ws.drop_first()[k] == ws[k + 1]);
            }
            self.lemma_scan_ws_prefix(ws.drop_first(), rest, started, run.push(ws[0]));
            assert(run.push(ws[0]) + ws.drop_first() =~= run + ws);
        }
    }
}

/// The collapsing adapter: yields the normalized characters one at a time.
pub struct WhitespaceCollapseAdapter<I> {
    input: I,
    config: NormalizeWhitespace,
    ws_count: usize,
    first_ws: char,
    first_ws_needs_replacement: bool,
    next_char: Option<char>,
    started: bool,
}

impl<I: CharStream> CharStream for WhitespaceCollapseAdapter<I> {
    closed spec fn rest(&self) -> Seq<char> {
        let tail = self.config.spec_scan(self.input.rest(),
            self.started,
            spec_canon_run(self.ws_count, self.first_ws),
        );
        match self.next_char {
            Some(c) => seq![c] + tail,
            None => tail,
        }
    }

    closed spec fn stream_inv(&self) -> bool {
        &&& self.input.stream_inv()
        &&& self.config.collapse
        &&& self.ws_count > 0 ==> self.first_ws_needs_replacement == self.config.spec_needs_rep(self.first_ws,
        )
        &&& self.next_char is Some ==> self.ws_count == 0 && self.started
    }

    fn next_char(&mut self) -> (r: Option<char>) {
        match self.next_char {
            Some(c) => {
                self.next_char = None;
                return Some(c);
            },
            None => {},
        }
        let ghost all = self.rest();
        loop
            invariant
                self.stream_inv(),
                self.next_char is None,
                self.rest() == all,
                all == old(self).rest(),
            decreases self.input.rest().len(),
        {
            let ghost before = self.input.rest();
            let ghost run0 = spec_canon_run(self.ws_count, self.first_ws);
            match self.input.next_char() {
                Some(c) => {
                    assert(before =~= seq![c] + self.input.rest());
                    assert(before.drop_first() =~= self.input.rest());
                    let (is_ws, needs_rep) = self.config.check_whitespace_and_single_char_replacement(
                        c,
                    );
                    if is_ws {
                        if self.ws_count == 0 {
                            self.first_ws = c;
                            self.first_ws_needs_replacement = needs_rep;
                        }
                        self.ws_count = self.ws_count.saturating_add(1);
                        proof {
                            self.config.lemma_scan_runs_alike(self.input.rest(),
                                self.started,
                                run0.push(c),
                                spec_canon_run(self.ws_count, self.first_ws),
                            );
                        }
                        continue;
                    }
                    if self.ws_count > 0 {
                        let count = self.ws_count;
                        self.ws_count = 0;
                        let should_emit = !self.config.trim || self.started;
                        if should_emit {
                            self.started = true;
                            self.next_char = Some(c);
                            let out = if count >= 2 || self.first_ws_needs_replacement {
                                self.config.replacement_char
                            } else {
                                self.first_ws
                            };
                            return Some(out);
                        }
                    }
                    self.started = true;
                    return Some(c);
                },
                None => {
                    if self.ws_count > 0 && !self.config.trim {
                        let count = self.ws_count;
                        self.ws_count = 0;
                        let out = if count >= 2 || self.first_ws_needs_replacement {
                            self.config.replacement_char
                        } else {
                            self.first_ws
                        };
                        return Some(out);
                    }
                    return None;
                },
            }
        }
    }
}

/// Reads the rest of a whitespace run that began with `first`: returns the
/// run and the non-whitespace character that ended it, if any.
fn gather_ws_run<I: CharStream>(config: &NormalizeWhitespace, input: &mut I, first: char) -> (r: (
    CharBuf,
    Option<char>,
))
    requires
        old(input).stream_inv(),
        config.spec_is_ws(first),
    ensures
        final(input).stream_inv(),
        char_buf_items(r.0).len() > 0,
        forall|k: int|
            0 <= k < char_buf_items(r.0).len() ==> config.spec_is_ws(#[trigger] char_buf_items(r.0)[k],
            ),
        match r.1 {
            Some(nc) => !config.spec_is_ws(nc) && seq![first] + old(input).rest()
                == char_buf_items(r.0) + seq![nc] + final(input).rest(),
            None => seq![first] + old(input).rest() == char_buf_items(r.0) && final(input).rest().len() == 0,
        },
{
    let mut ws_run = char_buf_new();
    char_buf_push(&mut ws_run, first);
    assert(char_buf_items(ws_run) =~= seq![first]);
    let ghost before = seq![first] + input.rest();
    loop
        invariant
            input.stream_inv(),
            char_buf_items(ws_run).len() > 0,
            forall|k: int|
                0 <= k < char_buf_items(ws_run).len() ==> config.spec_is_ws(#[trigger] char_buf_items(ws_run)[k],
                ),
            before == char_buf_items(ws_run) + input.rest(),
            before == seq![first] + old(input).rest(),
        decreases input.rest().len(),
    {
        let ghost inner = input.rest();
        match input.next_char() {
            Some(nc) => {
                assert(inner =~= seq![nc] + input.rest());
                if config.is_whitespace_for_config(nc) {
                    let ghost items0 = char_buf_items(ws_run);
                    char_buf_push(&mut ws_run, nc);
                    assert(items0 + inner =~= char_buf_items(ws_run) + input.rest());
                    assert forall|k: int|
                        0 <= k < char_buf_items(ws_run).len() implies config.spec_is_ws(#[trigger] char_buf_items(ws_run)[k],
                    ) by {
                        if k < items0.len() {
                            assert(char_buf_items(ws_run)[k] == items0[k]);
                        }
                    }
                } else {
                    assert(before =~= char_buf_items(ws_run) + seq![nc] + input.rest());
                    return (ws_run, Some(nc));
                }
            },
            None => {
                assert(char_buf_items(ws_run) + inner =~= char_buf_items(ws_run));
                return (ws_run, None);
            },
        }
    }
}

/// The adapter that keeps runs as they are and only trims the edges.
pub struct WhitespacePreserveAdapter<I> {
    input: I,
    config: NormalizeWhitespace,
    pending_ws: CharBuf,
    pending_idx: usize,
    next_char: Option<char>,
    started: bool,
}

impl<I: CharStream> CharStream for WhitespacePreserveAdapter<I> {
    closed spec fn rest(&self) -> Seq<char> {
        char_buf_items(self.pending_ws).skip(self.pending_idx as int) + match self.next_char {
            Some(c) => seq![c] + self.config.spec_scan(self.input.rest(), true, Seq::empty()),
            None => self.config.spec_scan(self.input.rest(), self.started, Seq::empty()),
        }
    }

    closed spec fn stream_inv(&self) -> bool {
        &&& self.input.stream_inv()
        &&& !self.config.collapse
        &&& self.pending_idx <= char_buf_items(self.pending_ws).len()
        &&& self.next_char matches Some(c) ==> !self.config.spec_is_ws(c)
    }

    fn next_char(&mut self) -> (r: Option<char>) {
        let ghost all = self.rest();
        loop
            invariant
                self.stream_inv(),
                self.rest() == all,
                all == old(self).rest(),
            decreases self.input.rest().len(),
        {
            let len = char_buf_len(&self.pending_ws);
            if self.pending_idx < len {
                let c = char_buf_get(&self.pending_ws, self.pending_idx);
                let ghost items = char_buf_items(self.pending_ws);
                assert(items.skip(self.pending_idx as int) =~= seq![c] + items.skip(
                    self.pending_idx + 1,
                ));
                self.pending_idx = self.pending_idx + 1;
                if self.pending_idx >= len {
                    char_buf_clear(&mut self.pending_ws);
                    self.pending_idx = 0;
                    assert(items.skip(len as int) =~= Seq::<char>::empty());
                    assert(char_buf_items(self.pending_ws).skip(0) =~= Seq::<char>::empty());
                }
                assert(self.rest() =~= all.drop_first());
                return Some(c);
            }
            assert(char_buf_items(self.pending_ws).skip(self.pending_idx as int) =~= Seq::<
                char,
            >::empty());
            match self.next_char {
                Some(c) => {
                    self.next_char = None;
                    self.started = true;
                    assert(self.rest() =~= all.drop_first());
                    return Some(c);
                },
                None => {},
            }
            let ghost before = self.input.rest();
            let c = match self.input.next_char() {
                Some(c) => c,
                None => {
                    return None;
                },
            };
            assert(before =~= seq![c] + self.input.rest());
            if self.config.is_whitespace_for_config(c) {
                let (ws_run, nc) = gather_ws_run(&self.config, &mut self.input, c);
                self.next_char = nc;
                let ghost run = char_buf_items(ws_run);
                proof {
                    match self.next_char {
                        Some(nc) => {
                            self.config.lemma_scan_ws_prefix(run,
                                seq![nc] + self.input.rest(),
                                self.started,
                                Seq::empty(),
                            );
                            assert(run + (seq![nc] + self.input.rest()) =~= before);
                            assert((seq![nc] + self.input.rest()).drop_first() =~= self.input.rest());
                            assert(Seq::<char>::empty() + run =~= run);
                        },
                        None => {
                            self.config.lemma_scan_ws_prefix(run,
                                self.input.rest(),
                                self.started,
                                Seq::empty(),
                            );
                            assert(run + self.input.rest() =~= before);
                            assert(Seq::<char>::empty() + run =~= run);
                        },
                    }
                }
                if self.config.trim && (!self.started || self.next_char.is_none()) {
                    self.started = true;
                    assert(char_buf_items(self.pending_ws).skip(self.pending_idx as int) =~= Seq::<
                        char,
                    >::empty());
                    assert(self.rest() =~= all);
                    continue;
                }
                self.pending_ws = ws_run;
                self.pending_idx = 0;
                self.started = true;
                assert(char_buf_items(self.pending_ws).skip(0) =~= run);
                assert(self.rest() =~= all);
                continue;
            }
            self.started = true;
            assert(self.rest() =~= all.drop_first());
            return Some(c);
        }
    }
}

/// The adapter a whitespace stage fuses in: collapsing or run-preserving.
pub enum NormalizeWhitespaceStaticAdapter<I> {
    Collapse(WhitespaceCollapseAdapter<I>),
    Preserve(WhitespacePreserveAdapter<I>),
}

impl<I: CharStream> CharStream for NormalizeWhitespaceStaticAdapter<I> {
    closed spec fn rest(&self) -> Seq<char> {
        match self {
            NormalizeWhitespaceStaticAdapter::Collapse(a) => a.rest(),
            NormalizeWhitespaceStaticAdapter::Preserve(a) => a.rest(),
        }
    }

    closed spec fn stream_inv(&self) -> bool {
        match self {
            NormalizeWhitespaceStaticAdapter::Collapse(a) => a.stream_inv(),
            NormalizeWhitespaceStaticAdapter::Preserve(a) => a.stream_inv(),
        }
    }

    fn next_char(&mut self) -> (r: Option<char>) {
        match self {
            NormalizeWhitespaceStaticAdapter::Collapse(a) => a.next_char(),
            NormalizeWhitespaceStaticAdapter::Preserve(a) => a.next_char(),
        }
    }
}

impl NormalizeWhitespace {
    /// The adapter over `input`: it yields the character-level
    /// normalization of what `input` yields.
    pub fn static_fused_adapter<I: CharStream>(&self, input: I, ctx: &Context) -> (r:
        NormalizeWhitespaceStaticAdapter<I>)
        requires
            input.stream_inv(),
        ensures
            r.stream_inv(),
            r.rest() == self.spec_scan(input.rest(), false, Seq::empty()),
    {
        if self.collapse {
            NormalizeWhitespaceStaticAdapter::Collapse(
                WhitespaceCollapseAdapter {
                    input,
                    config: *self,
                    ws_count: 0,
                    first_ws: ' ',
                    first_ws_needs_replacement: false,
                    next_char: None,
                    started: false,
                },
            )
        } else {
            let a = WhitespacePreserveAdapter {
                input,
                config: *self,
                pending_ws: char_buf_new(),
                pending_idx: 0,
                next_char: None,
                started: false,
            };
            assert(char_buf_items(a.pending_ws).skip(0) =~= Seq::<char>::empty());
            assert(a.rest() =~= self.spec_scan(a.input.rest(), false, Seq::empty()));
            NormalizeWhitespaceStaticAdapter::Preserve(a)
        }
    }
}

impl StaticFusableStage for NormalizeWhitespace {

    open spec fn spec_sound_everywhere(&self, ctx: &Context) -> bool {
        true
    }

    proof fn lemma_sound_everywhere(&self, text: Seq<char>, ctx: &Context) {
    }
    open spec fn spec_supports_static_fusion(&self) -> bool {
        true
    }

    open spec fn spec_fused(&self, text: Seq<char>, ctx: &Context) -> Seq<char> {
        self.spec_scan(text, false, Seq::empty())
    }

    open spec fn spec_fused_sound(&self, text: Seq<char>, ctx: &Context) -> bool {
        true
    }

    fn supports_static_fusion(&self) -> (r: bool) {
        true
    }

    fn fused_apply(&self, text: &str, ctx: &Context) -> (r: String) {
        let mut adapter = self.static_fused_adapter(StrChars::new(text), ctx);
        collect_stream(&mut adapter)
    }

    proof fn lemma_fused_is_apply(&self, text: Seq<char>, ctx: &Context) {
    }
}

} // verus!
