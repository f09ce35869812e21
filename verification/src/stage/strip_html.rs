//! HTML stripping: decodes entities, drops tags, comments, processing
//! instructions and the content of script-like elements, keeps the text.
use vstd::prelude::*;
use std::borrow::Cow;
use crate::context::Context;
use crate::stage::{Stage, StageError, StaticFusableStage};
use crate::text::{
    str_chars, str_eq, chars_eq, chars_to_string, spec_ascii_lower, spec_has_code,
    lemma_ascii_byte_in_utf8, spec_trim, trim_chars,
};
use crate::unicode::{spec_is_whitespace, is_whitespace};
use vstd::string::StringSliceAdditionalSpecFns;

verus! {

/// `memchr::memchr`: the position of the first occurrence of `needle` in
/// `haystack`, or `None` when it does not occur.
pub assume_specification[ memchr::memchr ](needle: u8, haystack: &[u8]) -> (r: Option<usize>)
    ensures
        match r {
            Some(i) => i < haystack@.len() && haystack@[i as int] == needle && forall|j: int|
                0 <= j < i ==> haystack@[j] != needle,
            None => !haystack@.contains(needle),
        },
;

/// The text after decoding its HTML character references, as
/// `html_escape::decode_html_entities_to_string` produces it.
pub uninterp spec fn spec_decode_html_entities(text: Seq<char>) -> Seq<char>;

/// `html_escape::decode_html_entities_to_string` into an empty string: the
/// decoded text. Which references it decodes is not restated here; a text
/// without `&` holds no reference, and its source copies such a text whole.
#[verifier::external_body]
fn decode_entities(text: &str) -> (r: String)
    ensures
        r@ == spec_decode_html_entities(text@),
        !spec_has_code(text@, 0x26) ==> r@ == text@,
{
    let mut out = String::new();
    html_escape::decode_html_entities_to_string(text, &mut out);
    out
}

/// Whether `text` holds the ASCII character `b`, found with `memchr`.
fn contains_ascii(text: &str, b: u8) -> (r: bool)
    requires
        b < 0x80,
    ensures
        r == spec_has_code(text@, b as u32),
{
    let bytes = text.as_bytes();
    proof {
        lemma_ascii_byte_in_utf8(text@, b);
    }
    memchr::memchr(b, bytes).is_some()
}

/// Whether `text` may hold a tag: it holds a `<`.
fn contains_html_tag(text: &str) -> (r: bool)
    ensures
        r == spec_has_code(text@, 0x3C),
{
    contains_ascii(text, 0x3C)
}

/// Whether `text` may hold a character reference: it holds a `&`.
fn contains_entities(text: &str) -> (r: bool)
    ensures
        r == spec_has_code(text@, 0x26),
{
    contains_ascii(text, 0x26)
}

/// Strips HTML tags and decodes entities while keeping the visible text.
///
/// The content of `script`, `style`, `noscript`, `svg` and `math` elements is
/// dropped; block-level tags become a space so that words stay apart;
/// comments, processing instructions and declarations are dropped; CDATA
/// content is kept. Unclosed constructs run to the end of the text. When
/// anything was stripped, the result is trimmed of `White_Space`.
///
/// Entities are decoded once and CDATA content is kept as it stands, so a
/// second pass strips what those reveal (`<![CDATA[<b>x</b>]]>` gives
/// `<b>x</b>`, and `&amp;lt;` gives `&lt;`); a text without `&` and without
/// CDATA is stripped for good in one pass.
pub struct StripHtml;

/// Where the tag scanner stands.
pub enum ParseStateView {
    Text,
    Tag,
    Comment,
    Cdata,
    ProcessingInstruction,
    ContentStrip(Seq<char>),
}

enum ParseState {
    Text,
    Tag,
    Comment,
    Cdata,
    ProcessingInstruction,
    ContentStrip(Vec<char>),
}

impl ParseState {
    spec fn view(&self) -> ParseStateView {
        match self {
            ParseState::Text => ParseStateView::Text,
            ParseState::Tag => ParseStateView::Tag,
            ParseState::Comment => ParseStateView::Comment,
            ParseState::Cdata => ParseStateView::Cdata,
            ParseState::ProcessingInstruction => ParseStateView::ProcessingInstruction,
            ParseState::ContentStrip(name) => ParseStateView::ContentStrip(name@),
        }
    }
}

pub open spec fn spec_is_ascii_alpha(c: char) -> bool {
    ('a' <= c && c <= 'z') || ('A' <= c && c <= 'Z')
}

/// The run of ASCII letters starting at `j`.
pub open spec fn spec_tag_name(s: Seq<char>, j: int) -> Seq<char>
    decreases s.len() - j,
{
    if j < 0 || j >= s.len() || !spec_is_ascii_alpha(s[j]) {
        Seq::empty()
    } else {
        seq![s[j]] + spec_tag_name(s, j + 1)
    }
}

pub open spec fn spec_lower(name: Seq<char>) -> Seq<char> {
    name.map_values(|c: char| spec_ascii_lower(c))
}

/// Elements whose whole content is dropped.
pub open spec fn spec_is_content_strip_tag(name: Seq<char>) -> bool {
    let l = spec_lower(name);
    l == "script"@ || l == "style"@ || l == "noscript"@ || l == "svg"@ || l == "math"@
}

/// Block-level elements, which become a space.
pub open spec fn spec_is_block_level_tag(name: Seq<char>) -> bool {
    let l = spec_lower(name);
    ||| l == "address"@ || l == "article"@ || l == "aside"@ || l == "blockquote"@
    ||| l == "details"@ || l == "dialog"@ || l == "dd"@ || l == "div"@ || l == "dl"@
    ||| l == "dt"@ || l == "fieldset"@ || l == "figcaption"@ || l == "figure"@
    ||| l == "footer"@ || l == "form"@ || l == "h1"@ || l == "h2"@ || l == "h3"@
    ||| l == "h4"@ || l == "h5"@ || l == "h6"@ || l == "header"@ || l == "hgroup"@
    ||| l == "hr"@ || l == "li"@ || l == "main"@ || l == "nav"@ || l == "ol"@ || l == "p"@
    ||| l == "pre"@ || l == "section"@ || l == "table"@ || l == "ul"@ || l == "tr"@
    ||| l == "td"@ || l == "th"@ || l == "thead"@ || l == "tbody"@ || l == "tfoot"@
    ||| l == "title"@ || l == "head"@ || l == "body"@
}

/// A space is due before block content: the output so far is non-empty and
/// does not end in whitespace.
pub open spec fn spec_wants_space(acc: Seq<char>) -> bool {
    acc.len() > 0 && !spec_is_whitespace(acc.last())
}

/// The position after the first `>` at or after `j`, or the end.
pub open spec fn spec_after_gt(s: Seq<char>, j: int) -> int
    decreases s.len() - j,
{
    if j >= s.len() {
        s.len() as int
    } else if s[j] == '>' {
        j + 1
    } else {
        spec_after_gt(s, j + 1)
    }
}

/// The position after the quote `q` that closes a quoted value starting at
/// `j`, a backslash escaping the next character; or the end.
pub open spec fn spec_skip_quoted(s: Seq<char>, j: int, q: char) -> int
    decreases s.len() - j,
{
    if j >= s.len() {
        s.len() as int
    } else if s[j] == '\\' {
        if j + 1 >= s.len() {
            s.len() as int
        } else {
            spec_skip_quoted(s, j + 2, q)
        }
    } else if s[j] == q {
        j + 1
    } else {
        spec_skip_quoted(s, j + 1, q)
    }
}

/// ASCII-case-insensitive equality.
pub open spec fn spec_ci_eq(a: Seq<char>, b: Seq<char>) -> bool {
    a.len() == b.len() && forall|k: int| 0 <= k < a.len() ==> spec_ascii_lower(#[trigger] a[k])
        == spec_ascii_lower(b[k])
}

/// The closing tag of `name` starts at `j`: the name, ignoring ASCII case,
/// then the end, `>`, or a space, tab, line feed or carriage return.
pub open spec fn spec_closing_matches(s: Seq<char>, j: int, name: Seq<char>) -> bool {
    &&& j + name.len() <= s.len()
    &&& spec_ci_eq(s.subrange(j, j + name.len()), name)
    &&& (j + name.len() == s.len() || {
        let c = s[j + name.len()];
        c == '>' || c == ' ' || c == '\t' || c == '\n' || c == '\r'
    })
}

/// The position after the next `>` lies between `j` and the end.
pub proof fn lemma_after_gt_ge(s: Seq<char>, j: int)
    ensures
        j <= s.len() ==> j <= spec_after_gt(s, j) <= s.len(),
    decreases s.len() - j,
{
    if j < s.len() && s[j] != '>' {
        lemma_after_gt_ge(s, j + 1);
    }
}

/// The position after a quoted value lies between `j` and the end.
pub proof fn lemma_skip_quoted_ge(s: Seq<char>, j: int, q: char)
    ensures
        j <= s.len() ==> j <= spec_skip_quoted(s, j, q) <= s.len(),
    decreases s.len() - j,
{
    if j < s.len() {
        if s[j] == '\\' {
            if j + 1 < s.len() {
                lemma_skip_quoted_ge(s, j + 2, q);
            }
        } else if s[j] != q {
            lemma_skip_quoted_ge(s, j + 1, q);
        }
    }
}

/// A tag name read at `j` is the run of ASCII letters standing there.
pub proof fn lemma_tag_name_len(s: Seq<char>, j: int)
    ensures
        0 <= j ==> j + spec_tag_name(s, j).len() <= s.len() || spec_tag_name(s, j).len() == 0,
        forall|k: int|
            0 <= k < spec_tag_name(s, j).len() ==> spec_tag_name(s, j)[k] == s[j + k]
                && spec_is_ascii_alpha(s[j + k]),
    decreases s.len() - j,
{
    if !(j < 0 || j >= s.len() || !spec_is_ascii_alpha(s[j])) {
        lemma_tag_name_len(s, j + 1);
        let t = spec_tag_name(s, j + 1);
        assert forall|k: int| 0 <= k < spec_tag_name(s, j).len() implies spec_tag_name(s, j)[k]
            == s[j + k] && spec_is_ascii_alpha(s[j + k]) by {
            if k > 0 {
                assert(spec_tag_name(s, j)[k] == t[k - 1]);
            }
        }
    }
}

/// "CDATA[", the marker after `<![`.
pub open spec fn spec_cdata_marker() -> Seq<char> {
    seq!['C', 'D', 'A', 'T', 'A', '[']
}

/// The output of the tag scanner from position `i` in state `st`, with
/// `acc` produced so far.
pub open spec fn spec_strip_from(s: Seq<char>, i: int, st: ParseStateView, acc: Seq<char>) -> Seq<
    char,
>
    decreases s.len() - i,
{
    if i < 0 || i >= s.len() {
        acc
    } else {
        let c = s[i];
        let n = s.len() as int;
        match st {
            ParseStateView::Text => {
                if c != '<' {
                    spec_strip_from(s, i + 1, ParseStateView::Text, acc.push(c))
                } else {
                    let nx = i + 1;
                    if nx < n && s[nx] == '!' {
                        if n - nx > 2 && s[nx + 1] == '-' && s[nx + 2] == '-' {
                            spec_strip_from(s, i + 4, ParseStateView::Comment, acc)
                        } else if nx + 8 <= n && s[nx + 1] == '[' && spec_ci_eq(
                            s.subrange(nx + 2, nx + 8),
                            spec_cdata_marker(),
                        ) {
                            spec_strip_from(s, i + 9, ParseStateView::Cdata, acc)
                        } else {
                            spec_strip_from(s, i + 1, ParseStateView::Tag, acc)
                        }
                    } else if nx < n && s[nx] == '?' {
                        spec_strip_from(s, i + 2, ParseStateView::ProcessingInstruction, acc)
                    } else if nx < n && s[nx] == '/' {
                        let name = spec_tag_name(s, nx + 1);
                        let acc2 = if spec_is_block_level_tag(name) && spec_wants_space(acc) {
                            acc.push(' ')
                        } else {
                            acc
                        };
                        spec_strip_from(s, i + 1, ParseStateView::Tag, acc2)
                    } else {
                        let name = spec_tag_name(s, nx);
                        if spec_is_content_strip_tag(name) {
                            proof {
                                lemma_tag_name_len(s, nx);
                                lemma_after_gt_ge(s, nx + name.len());
                            }
                            spec_strip_from(
                                s,
                                spec_after_gt(s, nx + name.len()),
                                ParseStateView::ContentStrip(name),
                                acc,
                            )
                        } else {
                            let acc2 = if spec_is_block_level_tag(name) && spec_wants_space(acc) {
                                acc.push(' ')
                            } else {
                                acc
                            };
                            spec_strip_from(s, i + 1, ParseStateView::Tag, acc2)
                        }
                    }
                }
            },
            ParseStateView::Tag => {
                if c == '"' || c == '\'' {
                    proof {
                        lemma_skip_quoted_ge(s, i + 1, c);
                    }
                    spec_strip_from(s, spec_skip_quoted(s, i + 1, c), ParseStateView::Tag, acc)
                } else if c == '>' {
                    spec_strip_from(s, i + 1, ParseStateView::Text, acc)
                } else {
                    spec_strip_from(s, i + 1, ParseStateView::Tag, acc)
                }
            },
            ParseStateView::Comment => {
                if c == '-' && n - i > 2 && s[i + 1] == '-' && s[i + 2] == '>' {
                    spec_strip_from(s, i + 3, ParseStateView::Text, acc)
                } else {
                    spec_strip_from(s, i + 1, ParseStateView::Comment, acc)
                }
            },
            ParseStateView::Cdata => {
                if c == ']' && n - i > 2 && s[i + 1] == ']' && s[i + 2] == '>' {
                    spec_strip_from(s, i + 3, ParseStateView::Text, acc)
                } else {
                    spec_strip_from(s, i + 1, ParseStateView::Cdata, acc.push(c))
                }
            },
            ParseStateView::ProcessingInstruction => {
                if c == '?' && i + 1 < n && s[i + 1] == '>' {
                    spec_strip_from(s, i + 2, ParseStateView::Text, acc)
                } else {
                    spec_strip_from(s, i + 1, ParseStateView::ProcessingInstruction, acc)
                }
            },
            ParseStateView::ContentStrip(name) => {
                if c == '<' && i + 1 < n && s[i + 1] == '/' && spec_closing_matches(s, i + 2, name) {
                    spec_strip_from(s, i + 2 + name.len(), ParseStateView::Tag, acc)
                } else {
                    spec_strip_from(s, i + 1, ParseStateView::ContentStrip(name), acc)
                }
            },
        }
    }
}

/// The text with its tags scanned away.
pub open spec fn spec_strip_tags(s: Seq<char>) -> Seq<char> {
    spec_strip_from(s, 0, ParseStateView::Text, Seq::empty())
}

/// The whole stage: entities decoded, then, when a `<` is in sight, tags
/// stripped and the result trimmed if anything was stripped.
pub open spec fn spec_strip_html(text: Seq<char>) -> Seq<char> {
    let decoded = if spec_has_code(text, 0x26) {
        spec_decode_html_entities(text)
    } else {
        text
    };
    if !(spec_has_code(text, 0x3C) || spec_has_code(decoded, 0x3C)) {
        decoded
    } else {
        let result = spec_strip_tags(decoded);
        if result == decoded {
            decoded
        } else {
            spec_trim(result)
        }
    }
}

/// The quick check: a `<`, or a character reference that decodes to
/// something else.
pub open spec fn spec_html_needs(text: Seq<char>) -> bool {
    text.len() > 0 && (spec_has_code(text, 0x3C) || (spec_has_code(text, 0x26)
        && spec_decode_html_entities(text) != text))
}

/// Every block-level element has a name.
proof fn lemma_block_name_nonempty(name: Seq<char>)
    ensures
        spec_is_block_level_tag(name) ==> name.len() > 0,
{
    if name.len() == 0 {
        assert(spec_lower(name) =~= Seq::<char>::empty());
        reveal_strlit("address");
        reveal_strlit("article");
        reveal_strlit("aside");
        reveal_strlit("blockquote");
        reveal_strlit("details");
        reveal_strlit("dialog");
        reveal_strlit("dd");
        reveal_strlit("div");
        reveal_strlit("dl");
        reveal_strlit("dt");
        reveal_strlit("fieldset");
        reveal_strlit("figcaption");
        reveal_strlit("figure");
        reveal_strlit("footer");
        reveal_strlit("form");
        reveal_strlit("h1");
        reveal_strlit("h2");
        reveal_strlit("h3");
        reveal_strlit("h4");
        reveal_strlit("h5");
        reveal_strlit("h6");
        reveal_strlit("header");
        reveal_strlit("hgroup");
        reveal_strlit("hr");
        reveal_strlit("li");
        reveal_strlit("main");
        reveal_strlit("nav");
        reveal_strlit("ol");
        reveal_strlit("p");
        reveal_strlit("pre");
        reveal_strlit("section");
        reveal_strlit("table");
        reveal_strlit("ul");
        reveal_strlit("tr");
        reveal_strlit("td");
        reveal_strlit("th");
        reveal_strlit("thead");
        reveal_strlit("tbody");
        reveal_strlit("tfoot");
        reveal_strlit("title");
        reveal_strlit("head");
        reveal_strlit("body");
    }
}

proof fn lemma_char_lt_amp(c: char)
    ensures
        (c == '<') == ((c as u32) == 0x3C),
        (c == '&') == ((c as u32) == 0x26),
{
}

proof fn lemma_lacks_at(s: Seq<char>, cp: u32, i: int)
    requires
        !spec_has_code(s, cp),
        0 <= i < s.len(),
    ensures
        (s[i] as u32) != cp,
{
}

/// `<![CDATA[` opens somewhere in the text, the marker in any ASCII case.
pub open spec fn spec_opens_cdata(s: Seq<char>) -> bool {
    exists|i: int|
        #![trigger s[i]]
        0 <= i && i + 9 <= s.len() && s[i] == '<' && s[i + 1] == '!' && s[i + 2] == '['
            && spec_ci_eq(s.subrange(i + 3, i + 9), spec_cdata_marker())
}

proof fn lemma_push_lacks(acc: Seq<char>, c: char, cp: u32)
    requires
        !spec_has_code(acc, cp),
        (c as u32) != cp,
    ensures
        !spec_has_code(acc.push(c), cp),
{
    assert forall|j: int| 0 <= j < acc.push(c).len() implies (#[trigger] acc.push(c)[j] as u32)
        != cp by {
        if j < acc.len() {
            assert(acc.push(c)[j] == acc[j]);
        }
    }
}

/// Without `&` in the text and without a CDATA section, the scanner puts
/// out neither `<` nor `&`.
proof fn lemma_strip_from_clean(s: Seq<char>, i: int, st: ParseStateView, acc: Seq<char>)
    requires
        !spec_has_code(s, 0x26),
        !spec_opens_cdata(s),
        !(st is Cdata),
        !spec_has_code(acc, 0x3C),
        !spec_has_code(acc, 0x26),
    ensures
        !spec_has_code(spec_strip_from(s, i, st, acc), 0x3C),
        !spec_has_code(spec_strip_from(s, i, st, acc), 0x26),
    decreases s.len() - i,
{
    if !(i < 0 || i >= s.len()) {
        let c = s[i];
        let n = s.len() as int;
        lemma_lacks_at(s, 0x26, i);
        lemma_char_lt_amp(c);
        lemma_push_lacks(acc, ' ', 0x3C);
        lemma_push_lacks(acc, ' ', 0x26);
        match st {
            ParseStateView::Text => {
                if c != '<' {
                    lemma_push_lacks(acc, c, 0x3C);
                    lemma_push_lacks(acc, c, 0x26);
                    lemma_strip_from_clean(s, i + 1, ParseStateView::Text, acc.push(c));
                } else {
                    let nx = i + 1;
                    if nx < n && s[nx] == '!' {
                        if n - nx > 2 && s[nx + 1] == '-' && s[nx + 2] == '-' {
                            lemma_strip_from_clean(s, i + 4, ParseStateView::Comment, acc);
                        } else if nx + 8 <= n && s[nx + 1] == '[' && spec_ci_eq(
                            s.subrange(nx + 2, nx + 8),
                            spec_cdata_marker(),
                        ) {
                            assert(s.subrange(i + 3, i + 9) == s.subrange(nx + 2, nx + 8));
                            assert(spec_opens_cdata(s));
                        } else {
                            lemma_strip_from_clean(s, i + 1, ParseStateView::Tag, acc);
                        }
                    } else if nx < n && s[nx] == '?' {
                        lemma_strip_from_clean(s, i + 2, ParseStateView::ProcessingInstruction, acc);
                    } else if nx < n && s[nx] == '/' {
                        let name = spec_tag_name(s, nx + 1);
                        let acc2 = if spec_is_block_level_tag(name) && spec_wants_space(acc) {
                            acc.push(' ')
                        } else {
                            acc
                        };
                        lemma_strip_from_clean(s, i + 1, ParseStateView::Tag, acc2);
                    } else {
                        let name = spec_tag_name(s, nx);
                        if spec_is_content_strip_tag(name) {
                            lemma_tag_name_len(s, nx);
                            lemma_after_gt_ge(s, nx + name.len());
                            lemma_strip_from_clean(
                                s,
                                spec_after_gt(s, nx + name.len()),
                                ParseStateView::ContentStrip(name),
                                acc,
                            );
                        } else {
                            let acc2 = if spec_is_block_level_tag(name) && spec_wants_space(acc) {
                                acc.push(' ')
                            } else {
                                acc
                            };
                            lemma_strip_from_clean(s, i + 1, ParseStateView::Tag, acc2);
                        }
                    }
                }
            },
            ParseStateView::Tag => {
                if c == '"' || c == '\'' {
                    lemma_skip_quoted_ge(s, i + 1, c);
                    lemma_strip_from_clean(s, spec_skip_quoted(s, i + 1, c), ParseStateView::Tag, acc);
                } else if c == '>' {
                    lemma_strip_from_clean(s, i + 1, ParseStateView::Text, acc);
                } else {
                    lemma_strip_from_clean(s, i + 1, ParseStateView::Tag, acc);
                }
            },
            ParseStateView::Comment => {
                if c == '-' && n - i > 2 && s[i + 1] == '-' && s[i + 2] == '>' {
                    lemma_strip_from_clean(s, i + 3, ParseStateView::Text, acc);
                } else {
                    lemma_strip_from_clean(s, i + 1, ParseStateView::Comment, acc);
                }
            },
            ParseStateView::Cdata => {},
            ParseStateView::ProcessingInstruction => {
                if c == '?' && i + 1 < n && s[i + 1] == '>' {
                    lemma_strip_from_clean(s, i + 2, ParseStateView::Text, acc);
                } else {
                    lemma_strip_from_clean(s, i + 1, ParseStateView::ProcessingInstruction, acc);
                }
            },
            ParseStateView::ContentStrip(name) => {
                if c == '<' && i + 1 < n && s[i + 1] == '/' && spec_closing_matches(s, i + 2, name) {
                    lemma_strip_from_clean(s, i + 2 + name.len(), ParseStateView::Tag, acc);
                } else {
                    lemma_strip_from_clean(s, i + 1, ParseStateView::ContentStrip(name), acc);
                }
            },
        }
    }
}

/// The scanner puts out at most one character for each it reads.
proof fn lemma_strip_from_len(s: Seq<char>, i: int, st: ParseStateView, acc: Seq<char>)
    requires
        0 <= i <= s.len(),
    ensures
        spec_strip_from(s, i, st, acc).len() <= acc.len() + s.len() - i,
    decreases s.len() - i,
{
    if i < s.len() {
        let c = s[i];
        let n = s.len() as int;
        match st {
            ParseStateView::Text => {
                if c != '<' {
                    lemma_strip_from_len(s, i + 1, ParseStateView::Text, acc.push(c));
                } else {
                    let nx = i + 1;
                    if nx < n && s[nx] == '!' {
                        if n - nx > 2 && s[nx + 1] == '-' && s[nx + 2] == '-' {
                            lemma_strip_from_len(s, i + 4, ParseStateView::Comment, acc);
                        } else if nx + 8 <= n && s[nx + 1] == '[' && spec_ci_eq(
                            s.subrange(nx + 2, nx + 8),
                            spec_cdata_marker(),
                        ) {
                            lemma_strip_from_len(s, i + 9, ParseStateView::Cdata, acc);
                        } else {
                            lemma_strip_from_len(s, i + 1, ParseStateView::Tag, acc);
                        }
                    } else if nx < n && s[nx] == '?' {
                        lemma_strip_from_len(s, i + 2, ParseStateView::ProcessingInstruction, acc);
                    } else if nx < n && s[nx] == '/' {
                        let name = spec_tag_name(s, nx + 1);
                        let acc2 = if spec_is_block_level_tag(name) && spec_wants_space(acc) {
                            acc.push(' ')
                        } else {
                            acc
                        };
                        lemma_strip_from_len(s, i + 1, ParseStateView::Tag, acc2);
                    } else {
                        let name = spec_tag_name(s, nx);
                        if spec_is_content_strip_tag(name) {
                            lemma_tag_name_len(s, nx);
                            lemma_after_gt_ge(s, nx + name.len());
                            lemma_strip_from_len(
                                s,
                                spec_after_gt(s, nx + name.len()),
                                ParseStateView::ContentStrip(name),
                                acc,
                            );
                        } else {
                            let acc2 = if spec_is_block_level_tag(name) && spec_wants_space(acc) {
                                acc.push(' ')
                            } else {
                                acc
                            };
                            lemma_strip_from_len(s, i + 1, ParseStateView::Tag, acc2);
                        }
                    }
                }
            },
            ParseStateView::Tag => {
                if c == '"' || c == '\'' {
                    lemma_skip_quoted_ge(s, i + 1, c);
                    lemma_strip_from_len(s, spec_skip_quoted(s, i + 1, c), ParseStateView::Tag, acc);
                } else if c == '>' {
                    lemma_strip_from_len(s, i + 1, ParseStateView::Text, acc);
                } else {
                    lemma_strip_from_len(s, i + 1, ParseStateView::Tag, acc);
                }
            },
            ParseStateView::Comment => {
                if c == '-' && n - i > 2 && s[i + 1] == '-' && s[i + 2] == '>' {
                    lemma_strip_from_len(s, i + 3, ParseStateView::Text, acc);
                } else {
                    lemma_strip_from_len(s, i + 1, ParseStateView::Comment, acc);
                }
            },
            ParseStateView::Cdata => {
                if c == ']' && n - i > 2 && s[i + 1] == ']' && s[i + 2] == '>' {
                    lemma_strip_from_len(s, i + 3, ParseStateView::Text, acc);
                } else {
                    lemma_strip_from_len(s, i + 1, ParseStateView::Cdata, acc.push(c));
                }
            },
            ParseStateView::ProcessingInstruction => {
                if c == '?' && i + 1 < n && s[i + 1] == '>' {
                    lemma_strip_from_len(s, i + 2, ParseStateView::Text, acc);
                } else {
                    lemma_strip_from_len(s, i + 1, ParseStateView::ProcessingInstruction, acc);
                }
            },
            ParseStateView::ContentStrip(name) => {
                if c == '<' && i + 1 < n && s[i + 1] == '/' && spec_closing_matches(s, i + 2, name) {
                    lemma_strip_from_len(s, i + 2 + name.len(), ParseStateView::Tag, acc);
                } else {
                    lemma_strip_from_len(s, i + 1, ParseStateView::ContentStrip(name), acc);
                }
            },
        }
    }
}

/// From the text state, a `<` ahead makes the output shorter than what is
/// read: the `<` itself is never put out.
proof fn lemma_strip_from_shorter(s: Seq<char>, i: int, acc: Seq<char>)
    requires
        0 <= i <= s.len(),
        exists|j: int| i <= j < s.len() && #[trigger] s[j] == '<',
    ensures
        spec_strip_from(s, i, ParseStateView::Text, acc).len() < acc.len() + s.len() - i,
    decreases s.len() - i,
{
    let n = s.len() as int;
    let j = choose|j: int| i <= j < s.len() && #[trigger] s[j] == '<';
    let c = s[i];
    if c != '<' {
        assert(j != i);
        assert(i + 1 <= j < s.len() && s[j] == '<');
        lemma_strip_from_shorter(s, i + 1, acc.push(c));
    } else {
        let nx = i + 1;
        if nx < n && s[nx] == '!' {
            if n - nx > 2 && s[nx + 1] == '-' && s[nx + 2] == '-' {
                lemma_strip_from_len(s, i + 4, ParseStateView::Comment, acc);
            } else if nx + 8 <= n && s[nx + 1] == '[' && spec_ci_eq(
                s.subrange(nx + 2, nx + 8),
                spec_cdata_marker(),
            ) {
                lemma_strip_from_len(s, i + 9, ParseStateView::Cdata, acc);
            } else {
                lemma_strip_from_len(s, i + 1, ParseStateView::Tag, acc);
            }
        } else if nx < n && s[nx] == '?' {
            lemma_strip_from_len(s, i + 2, ParseStateView::ProcessingInstruction, acc);
        } else if nx < n && s[nx] == '/' {
            let name = spec_tag_name(s, nx + 1);
            let acc2 = if spec_is_block_level_tag(name) && spec_wants_space(acc) {
                acc.push(' ')
            } else {
                acc
            };
            assert(spec_strip_from(s, i + 1, ParseStateView::Tag, acc2) == spec_strip_from(
                s,
                i + 2,
                ParseStateView::Tag,
                acc2,
            ));
            lemma_strip_from_len(s, i + 2, ParseStateView::Tag, acc2);
        } else {
            let name = spec_tag_name(s, nx);
            lemma_tag_name_len(s, nx);
            if spec_is_content_strip_tag(name) {
                lemma_after_gt_ge(s, nx + name.len());
                lemma_strip_from_len(
                    s,
                    spec_after_gt(s, nx + name.len()),
                    ParseStateView::ContentStrip(name),
                    acc,
                );
            } else if spec_is_block_level_tag(name) && spec_wants_space(acc) {
                lemma_block_name_nonempty(name);
                assert(name[0] == s[nx] && spec_is_ascii_alpha(s[nx]));
                assert(spec_strip_from(s, i + 1, ParseStateView::Tag, acc.push(' '))
                    == spec_strip_from(s, i + 2, ParseStateView::Tag, acc.push(' ')));
                lemma_strip_from_len(s, i + 2, ParseStateView::Tag, acc.push(' '));
            } else {
                lemma_strip_from_len(s, i + 1, ParseStateView::Tag, acc);
            }
        }
    }
}

/// Scanning text without `<` puts it out as it is.
proof fn lemma_strip_from_plain(s: Seq<char>, i: int, acc: Seq<char>)
    requires
        0 <= i <= s.len(),
        !spec_has_code(s, 0x3C),
    ensures
        spec_strip_from(s, i, ParseStateView::Text, acc) == acc + s.subrange(i, s.len() as int),
    decreases s.len() - i,
{
    if i < s.len() {
        assert((s[i] as u32) != 0x3C);
        lemma_strip_from_plain(s, i + 1, acc.push(s[i]));
        assert(acc.push(s[i]) + s.subrange(i + 1, s.len() as int) =~= acc + s.subrange(
            i,
            s.len() as int,
        ));
    } else {
        assert(acc + s.subrange(i, s.len() as int) =~= acc);
    }
}

/// Trimming keeps a text's length or shortens it, and adds no character.
proof fn lemma_trim_within(s: Seq<char>, cp: u32)
    ensures
        spec_trim(s).len() <= s.len(),
        !spec_has_code(s, cp) ==> !spec_has_code(spec_trim(s), cp),
{
    lemma_trim_start_within(s, cp);
    lemma_trim_end_within(crate::text::spec_trim_start(s), cp);
}

proof fn lemma_trim_start_within(s: Seq<char>, cp: u32)
    ensures
        crate::text::spec_trim_start(s).len() <= s.len(),
        !spec_has_code(s, cp) ==> !spec_has_code(crate::text::spec_trim_start(s), cp),
    decreases s.len(),
{
    if s.len() > 0 && crate::unicode::spec_is_whitespace(s[0]) {
        lemma_trim_start_within(s.drop_first(), cp);
        if !spec_has_code(s, cp) {
            assert forall|j: int| 0 <= j < s.drop_first().len() implies (
            #[trigger] s.drop_first()[j] as u32) != cp by {
                assert(s.drop_first()[j] == s[j + 1]);
            }
        }
    }
}

proof fn lemma_trim_end_within(s: Seq<char>, cp: u32)
    ensures
        crate::text::spec_trim_end(s).len() <= s.len(),
        !spec_has_code(s, cp) ==> !spec_has_code(crate::text::spec_trim_end(s), cp),
    decreases s.len(),
{
    if s.len() > 0 && crate::unicode::spec_is_whitespace(s.last()) {
        lemma_trim_end_within(s.drop_last(), cp);
        if !spec_has_code(s, cp) {
            assert forall|j: int| 0 <= j < s.drop_last().len() implies (
            #[trigger] s.drop_last()[j] as u32) != cp by {
                assert(s.drop_last()[j] == s[j]);
            }
        }
    }
}

/// A word: non-empty, with no `<`, no `&` and no whitespace.
pub open spec fn spec_is_plain_word(w: Seq<char>) -> bool {
    w.len() > 0 && forall|k: int|
        0 <= k < w.len() ==> #[trigger] w[k] != '<' && w[k] != '&' && !spec_is_whitespace(w[k])
}

/// The HTML block-level elements whose names are letters only.
pub open spec fn spec_block_element_name(n: Seq<char>) -> bool {
    ||| n == "address"@ || n == "article"@ || n == "aside"@ || n == "blockquote"@
    ||| n == "details"@ || n == "dialog"@ || n == "dd"@ || n == "div"@
    ||| n == "dl"@ || n == "dt"@ || n == "fieldset"@ || n == "figcaption"@
    ||| n == "figure"@ || n == "footer"@ || n == "form"@ || n == "header"@
    ||| n == "hgroup"@ || n == "hr"@ || n == "li"@ || n == "main"@
    ||| n == "nav"@ || n == "ol"@ || n == "p"@ || n == "pre"@
    ||| n == "section"@ || n == "table"@ || n == "ul"@ || n == "tr"@
    ||| n == "td"@ || n == "th"@ || n == "thead"@ || n == "tbody"@
    ||| n == "tfoot"@ || n == "title"@ || n == "head"@ || n == "body"@
}

/// `<n>` as characters.
pub open spec fn spec_open_tag(n: Seq<char>) -> Seq<char> {
    seq!['<'] + n + seq!['>']
}

/// `</n>` as characters.
pub open spec fn spec_close_tag(n: Seq<char>) -> Seq<char> {
    seq!['<', '/'] + n + seq!['>']
}

proof fn lemma_tag_name_is(s: Seq<char>, j: int, n: Seq<char>)
    requires
        0 <= j,
        j + n.len() < s.len(),
        s.subrange(j, j + n.len()) == n,
        forall|k: int| 0 <= k < n.len() ==> spec_is_ascii_alpha(#[trigger] n[k]),
        !spec_is_ascii_alpha(s[j + n.len()]),
    ensures
        spec_tag_name(s, j) == n,
    decreases n.len(),
{
    if n.len() == 0 {
        assert(n =~= Seq::<char>::empty());
    } else {
        assert(s[j] == s.subrange(j, j + n.len())[0]);
        let m = n.drop_first();
        assert forall|k: int| 0 <= k < m.len() implies #[trigger] s.subrange(j + 1, j + 1 + m.len())[k]
            == m[k] by {
            assert(s.subrange(j, j + n.len())[k + 1] == s[j + 1 + k]);
        }
        assert(s.subrange(j + 1, j + 1 + m.len()) =~= m);
        assert forall|k: int| 0 <= k < m.len() implies spec_is_ascii_alpha(#[trigger] m[k]) by {
            assert(m[k] == n[k + 1]);
        }
        lemma_tag_name_is(s, j + 1, m);
        assert(seq![s[j]] + m =~= n);
    }
}

proof fn lemma_text_run(s: Seq<char>, i: int, j: int, acc: Seq<char>)
    requires
        0 <= i <= j <= s.len(),
        forall|k: int| i <= k < j ==> #[trigger] s[k] != '<',
    ensures
        spec_strip_from(s, i, ParseStateView::Text, acc) == spec_strip_from(
            s,
            j,
            ParseStateView::Text,
            acc + s.subrange(i, j),
        ),
    decreases j - i,
{
    if i < j {
        lemma_text_run(s, i + 1, j, acc.push(s[i]));
        assert(acc.push(s[i]) + s.subrange(i + 1, j) =~= acc + s.subrange(i, j));
    } else {
        assert(acc + s.subrange(i, j) =~= acc);
    }
}

proof fn lemma_tag_run(s: Seq<char>, i: int, j: int, acc: Seq<char>)
    requires
        0 <= i <= j < s.len(),
        s[j] == '>',
        forall|k: int| i <= k < j ==> #[trigger] s[k] != '"' && s[k] != '\'' && s[k] != '>',
    ensures
        spec_strip_from(s, i, ParseStateView::Tag, acc) == spec_strip_from(
            s,
            j + 1,
            ParseStateView::Text,
            acc,
        ),
    decreases j - i,
{
    if i < j {
        lemma_tag_run(s, i + 1, j, acc);
    }
}

/// The output so far after a block-level tag: a space is added where one
/// is due.
pub open spec fn spec_after_block(n: Seq<char>, acc: Seq<char>) -> Seq<char> {
    if spec_is_block_level_tag(n) && spec_wants_space(acc) {
        acc.push(' ')
    } else {
        acc
    }
}

proof fn lemma_open_tag(s: Seq<char>, i: int, n: Seq<char>, acc: Seq<char>)
    requires
        0 <= i,
        i + n.len() + 2 <= s.len(),
        s.subrange(i, i + n.len() + 2) == spec_open_tag(n),
        n.len() > 0,
        forall|k: int| 0 <= k < n.len() ==> spec_is_ascii_alpha(#[trigger] n[k]),
        !spec_is_content_strip_tag(n),
    ensures
        spec_strip_from(s, i, ParseStateView::Text, acc) == spec_strip_from(
            s,
            i + n.len() + 2,
            ParseStateView::Text,
            spec_after_block(n, acc),
        ),
{
    let t = spec_open_tag(n);
    let l = n.len() as int;
    assert(s[i] == t[0]);
    assert forall|k: int| 0 <= k < l implies #[trigger] s[i + 1 + k] == n[k] by {
        assert(t[1 + k] == n[k]);
        assert(s.subrange(i, i + l + 2)[1 + k] == s[i + 1 + k]);
    }
    assert(s[i + 1 + l] == t[1 + l]);
    assert(s.subrange(i + 1, i + 1 + l) =~= n) by {
        assert forall|k: int| 0 <= k < l implies #[trigger] s.subrange(i + 1, i + 1 + l)[k] == n[k] by {
            assert(s[i + 1 + k] == n[k]);
        }
    }
    lemma_tag_name_is(s, i + 1, n);
    assert(s[i + 1] == n[0]);
    assert forall|k: int| i + 1 <= k < i + 1 + l implies #[trigger] s[k] != '"' && s[k] != '\''
        && s[k] != '>' by {
        assert(s[i + 1 + (k - i - 1)] == n[k - i - 1]);
        assert(spec_is_ascii_alpha(n[k - i - 1]));
    }
    lemma_tag_run(s, i + 1, i + 1 + l, spec_after_block(n, acc));
}

proof fn lemma_close_tag(s: Seq<char>, i: int, n: Seq<char>, acc: Seq<char>)
    requires
        0 <= i,
        i + n.len() + 3 <= s.len(),
        s.subrange(i, i + n.len() + 3) == spec_close_tag(n),
        n.len() > 0,
        forall|k: int| 0 <= k < n.len() ==> spec_is_ascii_alpha(#[trigger] n[k]),
    ensures
        spec_strip_from(s, i, ParseStateView::Text, acc) == spec_strip_from(
            s,
            i + n.len() + 3,
            ParseStateView::Text,
            spec_after_block(n, acc),
        ),
{
    let t = spec_close_tag(n);
    let l = n.len() as int;
    assert(s[i] == t[0]);
    assert(s[i + 1] == t[1]);
    assert forall|k: int| 0 <= k < l implies #[trigger] s[i + 2 + k] == n[k] by {
        assert(t[2 + k] == n[k]);
        assert(s.subrange(i, i + l + 3)[2 + k] == s[i + 2 + k]);
    }
    assert(s[i + 2 + l] == t[2 + l]);
    assert(s.subrange(i + 2, i + 2 + l) =~= n) by {
        assert forall|k: int| 0 <= k < l implies #[trigger] s.subrange(i + 2, i + 2 + l)[k] == n[k] by {
            assert(s[i + 2 + k] == n[k]);
        }
    }
    lemma_tag_name_is(s, i + 2, n);
    assert forall|k: int| i + 1 <= k < i + 2 + l implies #[trigger] s[k] != '"' && s[k] != '\''
        && s[k] != '>' by {
        if k > i + 1 {
            assert(s[i + 2 + (k - i - 2)] == n[k - i - 2]);
            assert(spec_is_ascii_alpha(n[k - i - 2]));
        }
    }
    lemma_tag_run(s, i + 1, i + 2 + l, spec_after_block(n, acc));
}

proof fn lemma_concat_lacks(x: Seq<char>, y: Seq<char>, cp: u32)
    requires
        !spec_has_code(x, cp),
        !spec_has_code(y, cp),
    ensures
        !spec_has_code(x + y, cp),
{
    assert forall|k: int| 0 <= k < (x + y).len() implies (#[trigger] (x + y)[k] as u32) != cp by {
        if k < x.len() {
            lemma_lacks_at(x, cp, k);
        } else {
            lemma_lacks_at(y, cp, k - x.len());
        }
    }
}

proof fn lemma_tag_lacks_amp(n: Seq<char>)
    requires
        forall|k: int| 0 <= k < n.len() ==> spec_is_ascii_alpha(#[trigger] n[k]),
    ensures
        !spec_has_code(spec_open_tag(n), 0x26),
        !spec_has_code(spec_close_tag(n), 0x26),
{
    assert forall|k: int| 0 <= k < n.len() implies (#[trigger] n[k] as u32) != 0x26 by {
        lemma_char_lt_amp(n[k]);
        assert(spec_is_ascii_alpha(n[k]));
    }
    assert(!spec_has_code(seq!['<'], 0x26)) by {
        assert(seq!['<'][0] == '<');
    }
    assert(!spec_has_code(seq!['>'], 0x26)) by {
        assert(seq!['>'][0] == '>');
    }
    assert(!spec_has_code(seq!['<', '/'], 0x26)) by {
        assert(seq!['<', '/'][0] == '<' && seq!['<', '/'][1] == '/');
    }
    lemma_concat_lacks(seq!['<'], n, 0x26);
    lemma_concat_lacks(seq!['<'] + n, seq!['>'], 0x26);
    lemma_concat_lacks(seq!['<', '/'], n, 0x26);
    lemma_concat_lacks(seq!['<', '/'] + n, seq!['>'], 0x26);
}

proof fn lemma_word_lacks_amp(w: Seq<char>)
    requires
        spec_is_plain_word(w),
    ensures
        !spec_has_code(w, 0x26),
{
    assert forall|k: int| 0 <= k < w.len() implies (#[trigger] w[k] as u32) != 0x26 by {
        lemma_char_lt_amp(w[k]);
        assert(w[k] != '&');
    }
}

/// Two block elements of the same kind in a row, `<n>a</n><n>b</n>`, with
/// words as content, strip to the two words with one space between them.
proof fn lemma_block_pair(n: Seq<char>, a: Seq<char>, b: Seq<char>)
    requires
        n.len() > 0,
        forall|k: int| 0 <= k < n.len() ==> spec_is_ascii_alpha(#[trigger] n[k]),
        spec_is_block_level_tag(n),
        !spec_is_content_strip_tag(n),
        spec_is_plain_word(a),
        spec_is_plain_word(b),
    ensures
        spec_strip_html(
            spec_open_tag(n) + a + spec_close_tag(n) + spec_open_tag(n) + b + spec_close_tag(n),
        ) == a + seq![' '] + b,
{
    let o = spec_open_tag(n);
    let c = spec_close_tag(n);
    let s = o + a + c + o + b + c;
    let l = n.len() as int;
    let p1 = l + 2;
    let p2 = p1 + a.len();
    let p3 = p2 + l + 3;
    let p4 = p3 + l + 2;
    let p5 = p4 + b.len();
    let e = p5 + l + 3;
    assert(s.len() == e);
    assert(s.subrange(0, p1) =~= o);
    assert(s.subrange(p1, p2) =~= a);
    assert(s.subrange(p2, p3) =~= c);
    assert(s.subrange(p3, p4) =~= o);
    assert(s.subrange(p4, p5) =~= b);
    assert(s.subrange(p5, e) =~= c);
    assert forall|k: int| p1 <= k < p2 implies #[trigger] s[k] != '<' by {
        assert(s.subrange(p1, p2)[k - p1] == s[k]);
        assert(a[k - p1] != '<');
    }
    assert forall|k: int| p4 <= k < p5 implies #[trigger] s[k] != '<' by {
        assert(s.subrange(p4, p5)[k - p4] == s[k]);
        assert(b[k - p4] != '<');
    }
    let acc0 = Seq::<char>::empty();
    lemma_open_tag(s, 0, n, acc0);
    assert(spec_after_block(n, acc0) == acc0);
    lemma_text_run(s, p1, p2, acc0);
    let acc1 = acc0 + s.subrange(p1, p2);
    assert(acc1 =~= a);
    lemma_close_tag(s, p2, n, acc1);
    assert(!spec_is_whitespace(a.last())) by {
        assert(a[a.len() - 1] != '<');
    }
    let acc2 = a.push(' ');
    assert(spec_after_block(n, acc1) == acc2);
    lemma_open_tag(s, p3, n, acc2);
    assert(spec_is_whitespace(acc2.last()));
    assert(spec_after_block(n, acc2) == acc2);
    lemma_text_run(s, p4, p5, acc2);
    let acc3 = acc2 + s.subrange(p4, p5);
    assert(acc3 =~= acc2 + b);
    lemma_close_tag(s, p5, n, acc3);
    assert(acc3.last() == b.last());
    assert(!spec_is_whitespace(b.last())) by {
        assert(b[b.len() - 1] != '<');
    }
    let r = acc3.push(' ');
    assert(spec_after_block(n, acc3) == r);
    assert(spec_strip_tags(s) == r);
    // No `&`, one `<`: the text goes through the scanner undecoded.
    lemma_tag_lacks_amp(n);
    lemma_word_lacks_amp(a);
    lemma_word_lacks_amp(b);
    lemma_concat_lacks(o, a, 0x26);
    lemma_concat_lacks(o + a, c, 0x26);
    lemma_concat_lacks(o + a + c, o, 0x26);
    lemma_concat_lacks(o + a + c + o, b, 0x26);
    lemma_concat_lacks(o + a + c + o + b, c, 0x26);
    assert(s[0] == '<');
    lemma_char_lt_amp(s[0]);
    assert(spec_has_code(s, 0x3C));
    assert(r[0] == a[0]);
    assert(r != s);
    // Trimming removes the trailing space only.
    assert(r.len() > 0 && !spec_is_whitespace(r[0]));
    assert(crate::text::spec_trim_start(r) == r);
    assert(r.last() == ' ');
    assert(r.drop_last() =~= acc3);
    assert(crate::text::spec_trim_end(r) == crate::text::spec_trim_end(acc3));
    assert(acc3.len() > 0 && !spec_is_whitespace(acc3.last()));
    assert(crate::text::spec_trim_end(acc3) == acc3);
    assert(acc3 =~= a + seq![' '] + b);
}

proof fn lemma_content_run(s: Seq<char>, i: int, j: int, n: Seq<char>, acc: Seq<char>)
    requires
        0 <= i <= j <= s.len(),
        forall|k: int| i <= k < j ==> #[trigger] s[k] != '<',
    ensures
        spec_strip_from(s, i, ParseStateView::ContentStrip(n), acc) == spec_strip_from(
            s,
            j,
            ParseStateView::ContentStrip(n),
            acc,
        ),
    decreases j - i,
{
    if i < j {
        lemma_content_run(s, i + 1, j, n, acc);
    }
}

/// An element whose content is dropped, `<n>x</n>w` with words `x` and
/// `w`, strips to `w`.
proof fn lemma_content_element(n: Seq<char>, x: Seq<char>, w: Seq<char>)
    requires
        n.len() > 0,
        forall|k: int| 0 <= k < n.len() ==> spec_is_ascii_alpha(#[trigger] n[k]),
        spec_is_content_strip_tag(n),
        spec_is_plain_word(x),
        spec_is_plain_word(w),
    ensures
        spec_strip_html(spec_open_tag(n) + x + spec_close_tag(n) + w) == w,
{
    let o = spec_open_tag(n);
    let c = spec_close_tag(n);
    let s = o + x + c + w;
    let l = n.len() as int;
    let p1 = l + 2;
    let p2 = p1 + x.len();
    let p3 = p2 + l + 3;
    let e = p3 + w.len();
    assert(s.len() == e);
    assert(s.subrange(0, p1) =~= o);
    assert(s.subrange(p1, p2) =~= x);
    assert(s.subrange(p2, p3) =~= c);
    assert(s.subrange(p3, e) =~= w);
    assert(s[0] == o[0]);
    assert forall|k: int| 0 <= k < l implies #[trigger] s[1 + k] == n[k] by {
        assert(o[1 + k] == n[k]);
    }
    assert(s[1 + l] == o[1 + l]);
    assert(s.subrange(1, 1 + l) =~= n);
    lemma_tag_name_is(s, 1, n);
    assert(s[1] == n[0]);
    assert(spec_after_gt(s, 1 + l) == 2 + l);
    assert forall|k: int| p1 <= k < p2 implies #[trigger] s[k] != '<' by {
        assert(s.subrange(p1, p2)[k - p1] == s[k]);
        assert(x[k - p1] != '<');
    }
    lemma_content_run(s, p1, p2, n, Seq::<char>::empty());
    assert(s[p2] == c[0] && s[p2 + 1] == c[1]);
    assert forall|k: int| 0 <= k < l implies #[trigger] s[p2 + 2 + k] == n[k] by {
        assert(c[2 + k] == n[k]);
        assert(s.subrange(p2, p3)[2 + k] == s[p2 + 2 + k]);
    }
    assert(s.subrange(p2 + 2, p2 + 2 + l) =~= n);
    assert(s[p2 + 2 + l] == c[2 + l]);
    assert(spec_closing_matches(s, p2 + 2, n));
    assert(spec_strip_from(s, p2 + 2 + l, ParseStateView::Tag, Seq::<char>::empty())
        == spec_strip_from(s, p3, ParseStateView::Text, Seq::<char>::empty()));
    assert forall|k: int| p3 <= k < e implies #[trigger] s[k] != '<' by {
        assert(s.subrange(p3, e)[k - p3] == s[k]);
        assert(w[k - p3] != '<');
    }
    lemma_text_run(s, p3, e, Seq::<char>::empty());
    assert(Seq::<char>::empty() + s.subrange(p3, e) =~= w);
    assert(spec_strip_tags(s) == w);
    lemma_tag_lacks_amp(n);
    lemma_word_lacks_amp(x);
    lemma_word_lacks_amp(w);
    lemma_concat_lacks(o, x, 0x26);
    lemma_concat_lacks(o + x, c, 0x26);
    lemma_concat_lacks(o + x + c, w, 0x26);
    lemma_char_lt_amp(s[0]);
    assert(spec_has_code(s, 0x3C));
    assert(w.len() < s.len());
    assert(w[0] != '<');
    assert(!spec_is_whitespace(w[0]) && !spec_is_whitespace(w.last()));
    assert(crate::text::spec_trim_start(w) == w);
    assert(crate::text::spec_trim_end(w) == w);
}

impl StripHtml {
    /// The content of `script`, `style`, `noscript`, `svg` and `math`
    /// elements is dropped with the element: `<n>x</n>w` strips to `w`.
    pub proof fn lemma_content_elements_dropped(n: Seq<char>, x: Seq<char>, w: Seq<char>)
        requires
            n == "script"@ || n == "style"@ || n == "noscript"@ || n == "svg"@ || n == "math"@,
            spec_is_plain_word(x),
            spec_is_plain_word(w),
        ensures
            spec_strip_html(spec_open_tag(n) + x + spec_close_tag(n) + w) == w,
    {
        if n == "script"@ {
            reveal_strlit("script");
            assert(spec_lower(n) =~= n);
        }
        if n == "style"@ {
            reveal_strlit("style");
            assert(spec_lower(n) =~= n);
        }
        if n == "noscript"@ {
            reveal_strlit("noscript");
            assert(spec_lower(n) =~= n);
        }
        if n == "svg"@ {
            reveal_strlit("svg");
            assert(spec_lower(n) =~= n);
        }
        if n == "math"@ {
            reveal_strlit("math");
            assert(spec_lower(n) =~= n);
        }
        lemma_content_element(n, x, w);
    }
}

impl StripHtml {
    /// Block-level elements separate words: two consecutive elements of the
    /// same block-level kind (`li`, `p`, `div`, `td`, `tr`, ...) whose
    /// contents are words strip to the two words with one space between
    /// them, `<li>a</li><li>b</li>` to `a b`.
    pub proof fn lemma_block_elements_separate_words(n: Seq<char>, a: Seq<char>, b: Seq<char>)
        requires
            spec_block_element_name(n),
            spec_is_plain_word(a),
            spec_is_plain_word(b),
        ensures
            spec_strip_html(
                spec_open_tag(n) + a + spec_close_tag(n) + spec_open_tag(n) + b + spec_close_tag(n),
            ) == a + seq![' '] + b,
    {
        reveal_strlit("script");
        reveal_strlit("style");
        reveal_strlit("noscript");
        reveal_strlit("svg");
        reveal_strlit("math");
        if n == "address"@ {
            reveal_strlit("address");
            assert(spec_lower(n) =~= n);

            assert(!spec_is_content_strip_tag(n));
        }
        if n == "article"@ {
            reveal_strlit("article");
            assert(spec_lower(n) =~= n);

            assert(!spec_is_content_strip_tag(n));
        }
        if n == "aside"@ {
            reveal_strlit("aside");
            assert(spec_lower(n) =~= n);
            assert(n[0] != "style"@[0]);
            assert(!spec_is_content_strip_tag(n));
        }
        if n == "blockquote"@ {
            reveal_strlit("blockquote");
            assert(spec_lower(n) =~= n);

            assert(!spec_is_content_strip_tag(n));
        }
        if n == "details"@ {
            reveal_strlit("details");
            assert(spec_lower(n) =~= n);

            assert(!spec_is_content_strip_tag(n));
        }
        if n == "dialog"@ {
            reveal_strlit("dialog");
            assert(spec_lower(n) =~= n);
            assert(n[0] != "script"@[0]);
            assert(!spec_is_content_strip_tag(n));
        }
        if n == "dd"@ {
            reveal_strlit("dd");
            assert(spec_lower(n) =~= n);

            assert(!spec_is_content_strip_tag(n));
        }
        if n == "div"@ {
            reveal_strlit("div");
            assert(spec_lower(n) =~= n);
            assert(n[0] != "svg"@[0]);
            assert(!spec_is_content_strip_tag(n));
        }
        if n == "dl"@ {
            reveal_strlit("dl");
            assert(spec_lower(n) =~= n);

            assert(!spec_is_content_strip_tag(n));
        }
        if n == "dt"@ {
            reveal_strlit("dt");
            assert(spec_lower(n) =~= n);

            assert(!spec_is_content_strip_tag(n));
        }
        if n == "fieldset"@ {
            reveal_strlit("fieldset");
            assert(spec_lower(n) =~= n);
            assert(n[0] != "noscript"@[0]);
            assert(!spec_is_content_strip_tag(n));
        }
        if n == "figcaption"@ {
            reveal_strlit("figcaption");
            assert(spec_lower(n) =~= n);

            assert(!spec_is_content_strip_tag(n));
        }
        if n == "figure"@ {
            reveal_strlit("figure");
            assert(spec_lower(n) =~= n);
            assert(n[0] != "script"@[0]);
            assert(!spec_is_content_strip_tag(n));
        }
        if n == "footer"@ {
            reveal_strlit("footer");
            assert(spec_lower(n) =~= n);
            assert(n[0] != "script"@[0]);
            assert(!spec_is_content_strip_tag(n));
        }
        if n == "form"@ {
            reveal_strlit("form");
            assert(spec_lower(n) =~= n);
            assert(n[0] != "math"@[0]);
            assert(!spec_is_content_strip_tag(n));
        }
        if n == "header"@ {
            reveal_strlit("header");
            assert(spec_lower(n) =~= n);
            assert(n[0] != "script"@[0]);
            assert(!spec_is_content_strip_tag(n));
        }
        if n == "hgroup"@ {
            reveal_strlit("hgroup");
            assert(spec_lower(n) =~= n);
            assert(n[0] != "script"@[0]);
            assert(!spec_is_content_strip_tag(n));
        }
        if n == "hr"@ {
            reveal_strlit("hr");
            assert(spec_lower(n) =~= n);

            assert(!spec_is_content_strip_tag(n));
        }
        if n == "li"@ {
            reveal_strlit("li");
            assert(spec_lower(n) =~= n);

            assert(!spec_is_content_strip_tag(n));
        }
        if n == "main"@ {
            reveal_strlit("main");
            assert(spec_lower(n) =~= n);
            assert(n[2] != "math"@[2]);
            assert(!spec_is_content_strip_tag(n));
        }
        if n == "nav"@ {
            reveal_strlit("nav");
            assert(spec_lower(n) =~= n);
            assert(n[0] != "svg"@[0]);
            assert(!spec_is_content_strip_tag(n));
        }
        if n == "ol"@ {
            reveal_strlit("ol");
            assert(spec_lower(n) =~= n);

            assert(!spec_is_content_strip_tag(n));
        }
        if n == "p"@ {
            reveal_strlit("p");
            assert(spec_lower(n) =~= n);

            assert(!spec_is_content_strip_tag(n));
        }
        if n == "pre"@ {
            reveal_strlit("pre");
            assert(spec_lower(n) =~= n);
            assert(n[0] != "svg"@[0]);
            assert(!spec_is_content_strip_tag(n));
        }
        if n == "section"@ {
            reveal_strlit("section");
            assert(spec_lower(n) =~= n);

            assert(!spec_is_content_strip_tag(n));
        }
        if n == "table"@ {
            reveal_strlit("table");
            assert(spec_lower(n) =~= n);
            assert(n[0] != "style"@[0]);
            assert(!spec_is_content_strip_tag(n));
        }
        if n == "ul"@ {
            reveal_strlit("ul");
            assert(spec_lower(n) =~= n);

            assert(!spec_is_content_strip_tag(n));
        }
        if n == "tr"@ {
            reveal_strlit("tr");
            assert(spec_lower(n) =~= n);

            assert(!spec_is_content_strip_tag(n));
        }
        if n == "td"@ {
            reveal_strlit("td");
            assert(spec_lower(n) =~= n);

            assert(!spec_is_content_strip_tag(n));
        }
        if n == "th"@ {
            reveal_strlit("th");
            assert(spec_lower(n) =~= n);

            assert(!spec_is_content_strip_tag(n));
        }
        if n == "thead"@ {
            reveal_strlit("thead");
            assert(spec_lower(n) =~= n);
            assert(n[0] != "style"@[0]);
            assert(!spec_is_content_strip_tag(n));
        }
        if n == "tbody"@ {
            reveal_strlit("tbody");
            assert(spec_lower(n) =~= n);
            assert(n[0] != "style"@[0]);
            assert(!spec_is_content_strip_tag(n));
        }
        if n == "tfoot"@ {
            reveal_strlit("tfoot");
            assert(spec_lower(n) =~= n);
            assert(n[0] != "style"@[0]);
            assert(!spec_is_content_strip_tag(n));
        }
        if n == "title"@ {
            reveal_strlit("title");
            assert(spec_lower(n) =~= n);
            assert(n[0] != "style"@[0]);
            assert(!spec_is_content_strip_tag(n));
        }
        if n == "head"@ {
            reveal_strlit("head");
            assert(spec_lower(n) =~= n);
            assert(n[0] != "math"@[0]);
            assert(!spec_is_content_strip_tag(n));
        }
        if n == "body"@ {
            reveal_strlit("body");
            assert(spec_lower(n) =~= n);
            assert(n[0] != "math"@[0]);
            assert(!spec_is_content_strip_tag(n));
        }
        lemma_block_pair(n, a, b);
    }
}

impl StripHtml {
    /// Stripping twice gives what stripping once gives, for a text without
    /// `&` and without a CDATA section. (A CDATA section's content is kept
    /// as it stands, markup included, and a second pass strips that markup;
    /// a text with `&` goes through the entity decoder, whose result is not
    /// restated here.)
    pub proof fn lemma_strip_html_idempotent(text: Seq<char>)
        requires
            !spec_has_code(text, 0x26),
            !spec_opens_cdata(text),
        ensures
            spec_strip_html(spec_strip_html(text)) == spec_strip_html(text),
    {
        let once = spec_strip_html(text);
        if spec_has_code(text, 0x3C) {
            let result = spec_strip_tags(text);
            lemma_strip_from_clean(text, 0, ParseStateView::Text, Seq::empty());
            if result == text {
                let j = choose|j: int| 0 <= j < text.len() && (#[trigger] text[j] as u32) == 0x3C;
                lemma_lacks_at(result, 0x3C, j);
            }
            lemma_trim_within(result, 0x3C);
            lemma_trim_within(result, 0x26);
            assert(once == spec_trim(result));
        }
        assert(!spec_has_code(once, 0x3C) && !spec_has_code(once, 0x26));
    }

    /// The quick check is true exactly when stripping changes the text, for
    /// a text without `&` or one whose decoded form holds no `<`. (Where the
    /// decoder reveals a `<`, whether the stripped result can come out equal
    /// to the original rests on what the decoder produces, which is not
    /// restated here.)
    pub proof fn lemma_html_needs_is_exact(text: Seq<char>)
        ensures
            (!spec_has_code(text, 0x26) || !spec_has_code(spec_decode_html_entities(text), 0x3C))
                ==> (spec_html_needs(text) == (spec_strip_html(text) != text)),
    {
        let decoded = if spec_has_code(text, 0x26) {
            spec_decode_html_entities(text)
        } else {
            text
        };
        if !spec_has_code(decoded, 0x3C) {
            if spec_has_code(text, 0x3C) {
                lemma_strip_from_plain(decoded, 0, Seq::empty());
                assert(Seq::<char>::empty() + decoded.subrange(0, decoded.len() as int) =~= decoded);
                let j = choose|j: int| 0 <= j < text.len() && (#[trigger] text[j] as u32) == 0x3C;
                if decoded == text {
                    lemma_lacks_at(decoded, 0x3C, j);
                }
            }
            if text.len() == 0 {
                assert(!spec_has_code(text, 0x26));
            }
        } else if !spec_has_code(text, 0x26) {
            let j = choose|j: int| 0 <= j < text.len() && (#[trigger] text[j] as u32) == 0x3C;
            lemma_char_lt_amp(text[j]);
            assert(text[j] == '<');
            lemma_strip_from_shorter(text, 0, Seq::empty());
            let result = spec_strip_tags(text);
            lemma_trim_within(result, 0x3C);
        }
    }
}

fn is_ascii_alpha(c: char) -> (r: bool)
    ensures
        r == spec_is_ascii_alpha(c),
{
    ('a' <= c && c <= 'z') || ('A' <= c && c <= 'Z')
}

fn ascii_lower(c: char) -> (r: char)
    ensures
        r == spec_ascii_lower(c),
{
    if 'A' <= c && c <= 'Z' {
        ((c as u32 + 32) as u8) as char
    } else {
        c
    }
}

/// The run of ASCII letters starting at `j`.
fn tag_name_at(s: &Vec<char>, j: usize) -> (r: Vec<char>)
    ensures
        r@ == spec_tag_name(s@, j as int),
{
    let n = s.len();
    let mut k = j;
    let mut name: Vec<char> = Vec::new();
    while k < n && is_ascii_alpha(s[k])
        invariant
            j <= k,
            n == s@.len(),
            spec_tag_name(s@, j as int) == name@ + spec_tag_name(s@, k as int),
        decreases n - k,
    {
        name.push(s[k]);
        assert(name@ + spec_tag_name(s@, k + 1) =~= name@.drop_last() + (seq![s@[k as int]]
            + spec_tag_name(s@, k + 1)));
        k = k + 1;
    }
    assert(spec_tag_name(s@, k as int) =~= Seq::<char>::empty());
    assert(name@ + Seq::<char>::empty() =~= name@);
    name
}

fn lower_chars(v: &Vec<char>) -> (r: String)
    ensures
        r@ == spec_lower(v@),
{
    let mut out = String::new();
    let n = v.len();
    for i in 0..n
        invariant
            n == v@.len(),
            out@ == spec_lower(v@.take(i as int)),
    {
        let c = ascii_lower(v[i]);
        crate::text::push_char(&mut out, c);
        assert(spec_lower(v@.take(i + 1)) =~= spec_lower(v@.take(i as int)).push(c));
    }
    assert(v@.take(n as int) =~= v@);
    out
}

/// Whether the element's whole content is dropped.
fn is_content_strip_tag(name: &Vec<char>) -> (r: bool)
    ensures
        r == spec_is_content_strip_tag(name@),
{
    let l = lower_chars(name);
    let l = l.as_str();
    str_eq(l, "script") || str_eq(l, "style") || str_eq(l, "noscript") || str_eq(l, "svg")
        || str_eq(l, "math")
}

/// Whether the element is block-level, so that it separates words.
fn is_block_level_tag(name: &Vec<char>) -> (r: bool)
    ensures
        r == spec_is_block_level_tag(name@),
{
    let l = lower_chars(name);
    let l = l.as_str();
    str_eq(l, "address") || str_eq(l, "article") || str_eq(l, "aside") || str_eq(l, "blockquote")
        || str_eq(l, "details") || str_eq(l, "dialog") || str_eq(l, "dd") || str_eq(l, "div")
        || str_eq(l, "dl") || str_eq(l, "dt") || str_eq(l, "fieldset") || str_eq(l, "figcaption")
        || str_eq(l, "figure") || str_eq(l, "footer") || str_eq(l, "form") || str_eq(l, "h1")
        || str_eq(l, "h2") || str_eq(l, "h3") || str_eq(l, "h4") || str_eq(l, "h5") || str_eq(
        l,
        "h6",
    ) || str_eq(l, "header") || str_eq(l, "hgroup") || str_eq(l, "hr") || str_eq(l, "li")
        || str_eq(l, "main") || str_eq(l, "nav") || str_eq(l, "ol") || str_eq(l, "p") || str_eq(
        l,
        "pre",
    ) || str_eq(l, "section") || str_eq(l, "table") || str_eq(l, "ul") || str_eq(l, "tr")
        || str_eq(l, "td") || str_eq(l, "th") || str_eq(l, "thead") || str_eq(l, "tbody")
        || str_eq(l, "tfoot") || str_eq(l, "title") || str_eq(l, "head") || str_eq(l, "body")
}

fn after_gt(s: &Vec<char>, j: usize) -> (r: usize)
    requires
        j <= s@.len(),
    ensures
        r == spec_after_gt(s@, j as int),
{
    let n = s.len();
    let mut k = j;
    while k < n && s[k] != '>'
        invariant
            j <= k <= n,
            n == s@.len(),
            spec_after_gt(s@, j as int) == spec_after_gt(s@, k as int),
        decreases n - k,
    {
        k = k + 1;
    }
    if k < n {
        k + 1
    } else {
        n
    }
}

fn skip_quoted(s: &Vec<char>, j: usize, q: char) -> (r: usize)
    requires
        j <= s@.len(),
    ensures
        r == spec_skip_quoted(s@, j as int, q),
{
    let n = s.len();
    let mut k = j;
    while k < n
        invariant
            j <= k <= n,
            n == s@.len(),
            spec_skip_quoted(s@, j as int, q) == spec_skip_quoted(s@, k as int, q),
        decreases n - k,
    {
        let ch = s[k];
        if ch == '\\' {
            if k + 1 >= n {
                return n;
            }
            k = k + 2;
        } else if ch == q {
            return k + 1;
        } else {
            k = k + 1;
        }
    }
    n
}

/// Whether `s[j..]` matches `lit` ignoring ASCII case, over all of `lit`.
fn ci_matches_at(s: &Vec<char>, j: usize, lit: &Vec<char>) -> (r: bool)
    requires
        j + lit@.len() <= s@.len(),
    ensures
        r == spec_ci_eq(s@.subrange(j as int, j + lit@.len()), lit@),
{
    let m = lit.len();
    let n = s.len();
    let ghost sub = s@.subrange(j as int, j + m);
    for k in 0..m
        invariant
            m == lit@.len(),
            n == s@.len(),
            j + m <= s@.len(),
            sub == s@.subrange(j as int, j + m),
            forall|t: int| 0 <= t < k ==> spec_ascii_lower(#[trigger] sub[t]) == spec_ascii_lower(
                lit@[t],
            ),
    {
        assert(j + k < s@.len());
        if ascii_lower(s[j + k]) != ascii_lower(lit[k]) {
            assert(sub[k as int] == s@[j + k]);
            return false;
        }
        assert(sub[k as int] == s@[j + k]);
    }
    true
}

/// Whether the closing tag of `name` starts at `j`.
fn check_closing_tag(s: &Vec<char>, j: usize, name: &Vec<char>) -> (r: bool)
    requires
        j <= s@.len(),
    ensures
        r == spec_closing_matches(s@, j as int, name@),
{
    let n = s.len();
    let m = name.len();
    if m > n - j {
        return false;
    }
    if !ci_matches_at(s, j, name) {
        return false;
    }
    if j + m == n {
        return true;
    }
    let c = s[j + m];
    c == '>' || c == ' ' || c == '\t' || c == '\n' || c == '\r'
}

/// The tag scanner.
pub fn strip_tags(s: &Vec<char>) -> (r: Vec<char>)
    ensures
        r@ == spec_strip_tags(s@),
{
    let n = s.len();
    let mut i: usize = 0;
    let mut state = ParseState::Text;
    let mut result: Vec<char> = Vec::new();
    let cdata = vec!['C', 'D', 'A', 'T', 'A', '['];
    while i < n
        invariant
            i <= n,
            n == s@.len(),
            cdata@ == spec_cdata_marker(),
            spec_strip_tags(s@) == spec_strip_from(s@, i as int, state.view(), result@),
        decreases n - i,
    {
        let c = s[i];
        match state {
            ParseState::Text => {
                if c != '<' {
                    result.push(c);
                    i = i + 1;
                } else {
                    let nx = i + 1;
                    if nx < n && s[nx] == '!' {
                        if n - nx > 2 && s[nx + 1] == '-' && s[nx + 2] == '-' {
                            state = ParseState::Comment;
                            i = i + 4;
                        } else if n - nx >= 8 && s[nx + 1] == '[' && ci_matches_at(s, nx + 2, &cdata) {
                            state = ParseState::Cdata;
                            i = i + 9;
                        } else {
                            state = ParseState::Tag;
                            i = i + 1;
                        }
                    } else if nx < n && s[nx] == '?' {
                        state = ParseState::ProcessingInstruction;
                        i = i + 2;
                    } else if nx < n && s[nx] == '/' {
                        let name = tag_name_at(s, nx + 1);
                        if is_block_level_tag(&name) && result.len() > 0 && !is_whitespace(
                            result[result.len() - 1],
                        ) {
                            result.push(' ');
                        }
                        state = ParseState::Tag;
                        i = i + 1;
                    } else {
                        let name = tag_name_at(s, nx);
                        proof {
                            lemma_tag_name_len(s@, nx as int);
                        }
                        if is_content_strip_tag(&name) {
                            let next = after_gt(s, nx + name.len());
                            proof {
                                lemma_after_gt_ge(s@, nx + name@.len());
                            }
                            state = ParseState::ContentStrip(name);
                            i = next;
                        } else {
                            if is_block_level_tag(&name) && result.len() > 0 && !is_whitespace(
                                result[result.len() - 1],
                            ) {
                                result.push(' ');
                            }
                            state = ParseState::Tag;
                            i = i + 1;
                        }
                    }
                }
            },
            ParseState::Tag => {
                if c == '"' || c == '\'' {
                    let next = skip_quoted(s, i + 1, c);
                    proof {
                        lemma_skip_quoted_ge(s@, i + 1, c);
                    }
                    i = next;
                } else if c == '>' {
                    state = ParseState::Text;
                    i = i + 1;
                } else {
                    i = i + 1;
                }
            },
            ParseState::Comment => {
                if c == '-' && n - i > 2 && s[i + 1] == '-' && s[i + 2] == '>' {
                    state = ParseState::Text;
                    i = i + 3;
                } else {
                    i = i + 1;
                }
            },
            ParseState::Cdata => {
                if c == ']' && n - i > 2 && s[i + 1] == ']' && s[i + 2] == '>' {
                    state = ParseState::Text;
                    i = i + 3;
                } else {
                    result.push(c);
                    i = i + 1;
                }
            },
            ParseState::ProcessingInstruction => {
                if c == '?' && i + 1 < n && s[i + 1] == '>' {
                    state = ParseState::Text;
                    i = i + 2;
                } else {
                    i = i + 1;
                }
            },
            ParseState::ContentStrip(name) => {
                if c == '<' && i + 1 < n && s[i + 1] == '/' && check_closing_tag(s, i + 2, &name) {
                    let len = name.len();
                    state = ParseState::Tag;
                    i = i + 2 + len;
                } else {
                    state = ParseState::ContentStrip(name);
                    i = i + 1;
                }
            },
        }
    }
    result
}

impl Stage for StripHtml {
    open spec fn spec_needs_apply(&self, text: Seq<char>, ctx: &Context) -> bool {
        spec_html_needs(text)
    }

    open spec fn spec_apply(&self, text: Seq<char>, ctx: &Context) -> Seq<char> {
        spec_strip_html(text)
    }

    open spec fn spec_skip_sound(&self, text: Seq<char>, ctx: &Context) -> bool {
        true
    }

    fn name(&self) -> (r: &'static str)
        ensures
            r@ == "strip_html"@,
    {
        "strip_html"
    }

    fn needs_apply(&self, text: &str, ctx: &Context) -> (r: Result<bool, StageError>) {
        if text.is_empty() {
            return Ok(false);
        }
        if contains_html_tag(text) {
            return Ok(true);
        }
        if contains_entities(text) {
            let decoded = decode_entities(text);
            return Ok(!str_eq(decoded.as_str(), text));
        }
        Ok(false)
    }

    /// A text without `<` whose references decode to themselves comes back
    /// as it came.
    fn apply<'a>(&self, text: Cow<'a, str>, ctx: &Context) -> (r: Result<Cow<'a, str>, StageError>)
        ensures
            !self.spec_needs_apply(text@, ctx) ==> r == Ok::<Cow<'a, str>, StageError>(text),
    {
        let has_tags = {
            let t: &str = match &text {
                Cow::Borrowed(b) => b,
                Cow::Owned(o) => o.as_str(),
            };
            contains_html_tag(t)
        };
        let has_entities = {
            let t: &str = match &text {
                Cow::Borrowed(b) => b,
                Cow::Owned(o) => o.as_str(),
            };
            contains_entities(t)
        };
        let decoded: Cow<'a, str> = if has_entities {
            let decoded_str = {
                let t: &str = match &text {
                    Cow::Borrowed(b) => b,
                    Cow::Owned(o) => o.as_str(),
                };
                decode_entities(t)
            };
            let same = {
                let t: &str = match &text {
                    Cow::Borrowed(b) => b,
                    Cow::Owned(o) => o.as_str(),
                };
                str_eq(decoded_str.as_str(), t)
            };
            if same {
                text
            } else {
                Cow::Owned(decoded_str)
            }
        } else {
            text
        };
        let d: &str = match &decoded {
            Cow::Borrowed(b) => b,
            Cow::Owned(o) => o.as_str(),
        };
        let has_tags_after_decode = has_tags || contains_html_tag(d);
        if !has_tags_after_decode {
            return Ok(decoded);
        }
        let chars = str_chars(d);
        let result = strip_tags(&chars);
        if chars_eq(&result, &chars) {
            return Ok(decoded);
        }
        let trimmed = trim_chars(&result);
        Ok(Cow::Owned(chars_to_string(&trimmed)))
    }

    open spec fn spec_safe_skip(&self) -> bool {
        false
    }

    fn safe_skip_approximation(&self) -> (r: bool) {
        false
    }

    proof fn lemma_apply_when_not_needed(&self, text: Seq<char>, ctx: &Context) {
    }
}

impl StaticFusableStage for StripHtml {

    open spec fn spec_sound_everywhere(&self, ctx: &Context) -> bool {
        true
    }

    proof fn lemma_sound_everywhere(&self, text: Seq<char>, ctx: &Context) {
    }
    open spec fn spec_supports_static_fusion(&self) -> bool {
        false
    }

    open spec fn spec_fused(&self, text: Seq<char>, ctx: &Context) -> Seq<char> {
        text
    }

    open spec fn spec_fused_sound(&self, text: Seq<char>, ctx: &Context) -> bool {
        true
    }

    fn supports_static_fusion(&self) -> (r: bool) {
        false
    }

    fn fused_apply(&self, text: &str, ctx: &Context) -> (r: String) {
        let chars = str_chars(text);
        chars_to_string(&chars)
    }

    proof fn lemma_fused_is_apply(&self, text: Seq<char>, ctx: &Context) {
    }
}

} // verus!
