//! Markdown stripping: the visible text of a Markdown document, with block
//! structure kept as line breaks.
use vstd::prelude::*;
use std::borrow::Cow;
use crate::context::Context;
use crate::stage::{Stage, StageError, StaticFusableStage};
use crate::text::{str_chars, str_eq, chars_to_string, spec_trim, trim_chars, extend_chars};
use crate::unicode::{spec_is_whitespace, is_whitespace};
use vstd::string::StringSliceAdditionalSpecFns;
use pulldown_cmark::{Options, Parser};
use pulldown_cmark::Event::{
    Code, DisplayMath, End, FootnoteReference, HardBreak, Html, InlineHtml, InlineMath, Rule,
    SoftBreak, Start, TaskListMarker, Text,
};

verus! {

/// `memchr::memchr2`: the first position holding either needle.
pub assume_specification[ memchr::memchr2 ](needle1: u8, needle2: u8, haystack: &[u8]) -> (r:
    Option<usize>)
    ensures
        match r {
            Some(i) => i < haystack@.len() && (haystack@[i as int] == needle1 || haystack@[i as int]
                == needle2) && forall|j: int|
                0 <= j < i ==> haystack@[j] != needle1 && haystack@[j] != needle2,
            None => !haystack@.contains(needle1) && !haystack@.contains(needle2),
        },
;

/// `memchr::memchr3`: the first position holding any of the three needles.
pub assume_specification[ memchr::memchr3 ](
    needle1: u8,
    needle2: u8,
    needle3: u8,
    haystack: &[u8],
) -> (r: Option<usize>)
    ensures
        match r {
            Some(i) => i < haystack@.len() && (haystack@[i as int] == needle1 || haystack@[i as int]
                == needle2 || haystack@[i as int] == needle3) && forall|j: int|
                0 <= j < i ==> haystack@[j] != needle1 && haystack@[j] != needle2 && haystack@[j]
                    != needle3,
            None => !haystack@.contains(needle1) && !haystack@.contains(needle2)
                && !haystack@.contains(needle3),
        },
;

/// A Markdown parser event, as the renderer reads it, one variant per event
/// kind. Start and end events carry the debug text of their tag
/// (`Paragraph`, `Heading(H1)`, `Heading { level: H1, .. }`, ...).
pub enum MdEvent {
    Start(String),
    End(String),
    Text(String),
    Code(String),
    Html(String),
    InlineHtml(String),
    FootnoteReference(String),
    InlineMath(String),
    DisplayMath(String),
    SoftBreak,
    HardBreak,
    Rule,
    TaskListMarker(bool),
}

pub enum MdEventView {
    Start(Seq<char>),
    End(Seq<char>),
    Text(Seq<char>),
    Code(Seq<char>),
    Html(Seq<char>),
    InlineHtml(Seq<char>),
    FootnoteReference(Seq<char>),
    InlineMath(Seq<char>),
    DisplayMath(Seq<char>),
    SoftBreak,
    HardBreak,
    Rule,
    TaskListMarker(bool),
}

impl MdEvent {
    pub open spec fn view(&self) -> MdEventView {
        match self {
            MdEvent::Start(s) => MdEventView::Start(s@),
            MdEvent::End(s) => MdEventView::End(s@),
            MdEvent::Text(s) => MdEventView::Text(s@),
            MdEvent::Code(s) => MdEventView::Code(s@),
            MdEvent::Html(s) => MdEventView::Html(s@),
            MdEvent::InlineHtml(s) => MdEventView::InlineHtml(s@),
            MdEvent::FootnoteReference(s) => MdEventView::FootnoteReference(s@),
            MdEvent::InlineMath(s) => MdEventView::InlineMath(s@),
            MdEvent::DisplayMath(s) => MdEventView::DisplayMath(s@),
            MdEvent::SoftBreak => MdEventView::SoftBreak,
            MdEvent::HardBreak => MdEventView::HardBreak,
            MdEvent::Rule => MdEventView::Rule,
            MdEvent::TaskListMarker(b) => MdEventView::TaskListMarker(*b),
        }
    }
}

pub open spec fn md_events_view(v: Seq<MdEvent>) -> Seq<MdEventView> {
    v.map_values(|e: MdEvent| e.view())
}

/// The parser options: tables, footnotes, strikethrough, task lists and math.
pub const MARKDOWN_OPTIONS: u32 = (1u32 << 1) | (1u32 << 2) | (1u32 << 3) | (1u32 << 4) | (1u32
    << 10);

/// The events `pulldown_cmark::Parser::new_ext` yields for `text` with the
/// given option bits, each event by its kind and text, start and end tags
/// given by their debug text.
pub uninterp spec fn spec_markdown_events(text: Seq<char>, options: u32) -> Seq<MdEventView>;

/// `pulldown_cmark::Parser::new_ext`, its events converted one by one. The
/// grammar it parses is not restated here.
#[verifier::external_body]
fn markdown_events(text: &str, options: u32) -> (r: Vec<MdEvent>)
    ensures
        md_events_view(r@) == spec_markdown_events(text@, options),
{
    Parser::new_ext(text, Options::from_bits_truncate(options)).map(|e| match e {
        Start(t) => MdEvent::Start(format!("{t:?}")),
        End(t) => MdEvent::End(format!("{t:?}")),
        Text(s) => MdEvent::Text(s.into_string()),
        Code(s) => MdEvent::Code(s.into_string()),
        Html(s) => MdEvent::Html(s.into_string()),
        InlineHtml(s) => MdEvent::InlineHtml(s.into_string()),
        FootnoteReference(s) => MdEvent::FootnoteReference(s.into_string()),
        InlineMath(s) => MdEvent::InlineMath(s.into_string()),
        DisplayMath(s) => MdEvent::DisplayMath(s.into_string()),
        SoftBreak => MdEvent::SoftBreak, HardBreak => MdEvent::HardBreak, Rule => MdEvent::Rule,
        TaskListMarker(b) => MdEvent::TaskListMarker(b),
    }).collect()
}

// ---------------------------------------------------------------------------
// The quick check, on the UTF-8 bytes
// ---------------------------------------------------------------------------

/// Three equal rule characters (`-`, `*` or `_`) start at `i`.
pub open spec fn spec_rule_triple_at(b: Seq<u8>, i: int) -> bool {
    &&& 0 <= i && i + 2 < b.len()
    &&& (b[i] == 0x2Du8 && b[i + 1] == 0x2Du8 && b[i + 2] == 0x2Du8) || (b[i] == 0x2Au8 && b[i + 1] == 0x2Au8
        && b[i + 2] == 0x2Au8) || (b[i] == 0x5Fu8 && b[i + 1] == 0x5Fu8 && b[i + 2] == 0x5Fu8)
}

/// Position `j` ends a rule: the end, a line feed, a space, a tab or a carriage return.
pub open spec fn spec_rule_end_ok(b: Seq<u8>, j: int) -> bool {
    j >= b.len() || b[j] == 0x0Au8 || b[j] == 0x20u8 || b[j] == 0x09u8 || b[j] == 0x0Du8
}

/// A horizontal rule at the start of a line.
pub open spec fn spec_has_horizontal_rule(b: Seq<u8>) -> bool {
    ||| spec_rule_triple_at(b, 0) && spec_rule_end_ok(b, 3)
    ||| exists|i: int|
        1 <= i < b.len() - 2 && b[i - 1] == 0x0Au8 && #[trigger] spec_rule_triple_at(b, i)
            && spec_rule_end_ok(b, i + 3)
}

pub open spec fn spec_is_bullet(x: u8) -> bool {
    x == 0x2Du8 || x == 0x2Bu8
}

/// A `-` or `+` bullet followed by a space at the start of a line.
pub open spec fn spec_has_unordered_list_marker(b: Seq<u8>) -> bool {
    ||| b.len() >= 2 && spec_is_bullet(b[0]) && b[1] == 0x20u8
    ||| exists|i: int|
        1 <= i < b.len() - 1 && b[i - 1] == 0x0Au8 && #[trigger] spec_is_bullet(b[i]) && b[i + 1]
            == 0x20u8
}

pub open spec fn spec_is_digit(x: u8) -> bool {
    0x30u8 <= x && x <= 0x39u8
}

/// The first position at or after `j` that is not a digit.
pub open spec fn spec_digits_end(b: Seq<u8>, j: int) -> int
    decreases b.len() - j,
{
    if j < b.len() && spec_is_digit(b[j]) {
        spec_digits_end(b, j + 1)
    } else {
        j
    }
}

/// Digits from `j` on are followed by `". "`.
pub open spec fn spec_dot_space_after_digits(b: Seq<u8>, j: int) -> bool {
    let k = spec_digits_end(b, j);
    k + 1 < b.len() && b[k] == 0x2Eu8 && b[k + 1] == 0x20u8
}

/// A numbered item (`1. `) at the start of the text or after a line feed
/// that has at least three bytes after it.
pub open spec fn spec_has_ordered_list_marker(b: Seq<u8>) -> bool {
    ||| b.len() > 0 && spec_is_digit(b[0]) && spec_dot_space_after_digits(b, 1)
    ||| exists|i: int|
        0 <= i < b.len() && #[trigger] b[i] == 0x0Au8 && i + 3 < b.len() && spec_is_digit(b[i + 1])
            && spec_dot_space_after_digits(b, i + 2)
}

/// Whether the bytes hold anything that looks like Markdown.
pub open spec fn spec_contains_markdown(b: Seq<u8>) -> bool {
    ||| b.contains(0x23u8) || b.contains(0x2Au8) || b.contains(0x5Fu8)
    ||| b.contains(0x60u8) || b.contains(0x7Eu8)
    ||| b.contains(0x3Eu8)
    ||| b.contains(0x7Cu8)
    ||| b.contains(0x5Bu8) && b.contains(0x5Du8) && b.contains(0x28u8)
    ||| spec_has_unordered_list_marker(b) || spec_has_horizontal_rule(b)
    ||| spec_has_ordered_list_marker(b)
}

fn is_rule_triple_at(b: &[u8], i: usize) -> (r: bool)
    requires
        i + 2 < b@.len(),
    ensures
        r == spec_rule_triple_at(b@, i as int),
{
    (b[i] == 0x2Du8 && b[i + 1] == 0x2Du8 && b[i + 2] == 0x2Du8) || (b[i] == 0x2Au8 && b[i + 1] == 0x2Au8
        && b[i + 2] == 0x2Au8) || (b[i] == 0x5Fu8 && b[i + 1] == 0x5Fu8 && b[i + 2] == 0x5Fu8)
}

fn is_rule_end_ok(b: &[u8], j: usize) -> (r: bool)
    ensures
        r == spec_rule_end_ok(b@, j as int),
{
    j >= b.len() || b[j] == 0x0Au8 || b[j] == 0x20u8 || b[j] == 0x09u8 || b[j] == 0x0Du8
}

/// Horizontal rules: `---`, `***`, `___` at a line start, then a line end
/// or blank.
fn has_horizontal_rule(bytes: &[u8]) -> (r: bool)
    ensures
        r == spec_has_horizontal_rule(bytes@),
{
    let n = bytes.len();
    if n >= 3 && is_rule_triple_at(bytes, 0) {
        if is_rule_end_ok(bytes, 3) {
            return true;
        }
    }
    let end = n.saturating_sub(2);
    let mut i: usize = 1;
    while i < end
        invariant
            1 <= i,
            n == bytes@.len(),
            end == (if n >= 2 { n - 2 } else { 0 }),
            !(spec_rule_triple_at(bytes@, 0) && spec_rule_end_ok(bytes@, 3)),
            forall|k: int|
                1 <= k < i ==> !(bytes@[k - 1] == 0x0Au8 && #[trigger] spec_rule_triple_at(bytes@, k)
                    && spec_rule_end_ok(bytes@, k + 3)),
        decreases end - i,
    {
        if bytes[i - 1] == 0x0Au8 && is_rule_triple_at(bytes, i) {
            if is_rule_end_ok(bytes, i + 3) {
                return true;
            }
        }
        i = i + 1;
    }
    false
}

/// A `-` or `+` bullet and a space at a line start.
fn has_unordered_list_marker(bytes: &[u8]) -> (r: bool)
    ensures
        r == spec_has_unordered_list_marker(bytes@),
{
    let n = bytes.len();
    if n >= 2 && (bytes[0] == 0x2Du8 || bytes[0] == 0x2Bu8) && bytes[1] == 0x20u8 {
        return true;
    }
    let end = n.saturating_sub(1);
    let mut i: usize = 1;
    while i < end
        invariant
            1 <= i,
            n == bytes@.len(),
            end == (if n >= 1 { n - 1 } else { 0 }),
            !(n >= 2 && spec_is_bullet(bytes@[0]) && bytes@[1] == 0x20u8),
            forall|k: int|
                1 <= k < i ==> !(bytes@[k - 1] == 0x0Au8 && #[trigger] spec_is_bullet(bytes@[k])
                    && bytes@[k + 1] == 0x20u8),
        decreases end - i,
    {
        if bytes[i - 1] == 0x0Au8 && (bytes[i] == 0x2Du8 || bytes[i] == 0x2Bu8) && bytes[i + 1]
            == 0x20u8 {
            assert(spec_is_bullet(bytes@[i as int]));
            return true;
        }
        i = i + 1;
    }
    false
}

fn digits_end(b: &[u8], j: usize) -> (r: usize)
    requires
        j <= b@.len(),
    ensures
        r == spec_digits_end(b@, j as int),
        j <= r <= b@.len(),
{
    let mut k = j;
    while k < b.len() && 0x30u8 <= b[k] && b[k] <= 0x39u8
        invariant
            j <= k <= b@.len(),
            spec_digits_end(b@, j as int) == spec_digits_end(b@, k as int),
        decreases b@.len() - k,
    {
        k = k + 1;
    }
    k
}

fn dot_space_after_digits(b: &[u8], j: usize) -> (r: bool)
    requires
        j <= b@.len(),
    ensures
        r == spec_dot_space_after_digits(b@, j as int),
{
    let k = digits_end(b, j);
    k < b.len() && b.len() - k > 1 && b[k] == 0x2Eu8 && b[k + 1] == 0x20u8
}

/// A numbered item at a line start.
fn has_ordered_list_marker(bytes: &[u8]) -> (r: bool)
    ensures
        r == spec_has_ordered_list_marker(bytes@),
{
    let n = bytes.len();
    if n > 0 && 0x30u8 <= bytes[0] && bytes[0] <= 0x39u8 {
        if dot_space_after_digits(bytes, 1) {
            return true;
        }
    }
    let mut i: usize = 0;
    while i < n
        invariant
            i <= n,
            n == bytes@.len(),
            !(n > 0 && spec_is_digit(bytes@[0]) && spec_dot_space_after_digits(bytes@, 1)),
            forall|k: int|
                0 <= k < i ==> !(#[trigger] bytes@[k] == 0x0Au8 && k + 3 < n && spec_is_digit(
                    bytes@[k + 1],
                ) && spec_dot_space_after_digits(bytes@, k + 2)),
        decreases n - i,
    {
        if bytes[i] == 0x0Au8 && n - i > 3 {
            let next = i + 1;
            if 0x30u8 <= bytes[next] && bytes[next] <= 0x39u8 {
                if dot_space_after_digits(bytes, next + 1) {
                    return true;
                }
            }
        }
        i = i + 1;
    }
    false
}

/// Whether the bytes hold anything that looks like Markdown.
fn contains_markdown_bytes(text: &str) -> (r: bool)
    ensures
        r == spec_contains_markdown(text.spec_bytes()),
{
    let bytes = text.as_bytes();
    if memchr::memchr3(0x23u8, 0x2Au8, 0x5Fu8, bytes).is_some() {
        return true;
    }
    if memchr::memchr2(0x60u8, 0x7Eu8, bytes).is_some() {
        return true;
    }
    if memchr::memchr(0x3Eu8, bytes).is_some() {
        return true;
    }
    if memchr::memchr(0x7Cu8, bytes).is_some() {
        return true;
    }
    if memchr::memchr(0x5Bu8, bytes).is_some() && memchr::memchr(0x5Du8, bytes).is_some()
        && memchr::memchr(0x28u8, bytes).is_some() {
        return true;
    }
    if has_unordered_list_marker(bytes) || has_horizontal_rule(bytes) {
        return true;
    }
    if has_ordered_list_marker(bytes) {
        return true;
    }
    false
}

// ---------------------------------------------------------------------------
// Rendering the events
// ---------------------------------------------------------------------------

/// The element kind named by a debug name: everything before the first `(`
/// or space.
pub open spec fn spec_kind_name(s: Seq<char>) -> Seq<char>
    decreases s.len(),
{
    if s.len() == 0 || s[0] == '(' || s[0] == ' ' {
        Seq::empty()
    } else {
        seq![s[0]] + spec_kind_name(s.drop_first())
    }
}

/// Elements whose start opens a new line.
pub open spec fn spec_is_block_start(k: Seq<char>) -> bool {
    k == "Paragraph"@ || k == "Heading"@ || k == "BlockQuote"@ || k == "CodeBlock"@ || k == "List"@
        || k == "Item"@ || k == "Table"@ || k == "TableRow"@
}

/// Elements whose end closes a line.
pub open spec fn spec_is_block_end(k: Seq<char>) -> bool {
    k == "Paragraph"@ || k == "Heading"@ || k == "BlockQuote"@ || k == "CodeBlock"@ || k == "List"@
        || k == "Item"@ || k == "Table"@ || k == "TableHead"@ || k == "TableRow"@
}

/// Elements whose end, right after a cell, leaves no room for a separating space.
pub open spec fn spec_is_cell_block_end(k: Seq<char>) -> bool {
    k == "Paragraph"@ || k == "Table"@ || k == "TableHead"@ || k == "List"@ || k == "Item"@
}

/// A space belongs after a table cell unless the next event ends the row,
/// breaks the line or ends a block, or the output already ends in whitespace.
pub open spec fn spec_cell_space(next: Option<MdEventView>, out: Seq<char>) -> bool {
    let row_end = next matches Some(MdEventView::End(k)) && spec_kind_name(k) == "TableRow"@;
    let newline = next matches Some(MdEventView::SoftBreak) || next matches Some(
        MdEventView::HardBreak,
    );
    let block_end = next matches Some(MdEventView::End(k)) && spec_is_cell_block_end(
        spec_kind_name(k),
    );
    !row_end && !newline && !block_end && !(out.len() > 0 && spec_is_whitespace(out.last()))
}

/// The output after rendering event `i`.
pub open spec fn spec_md_step(ev: Seq<MdEventView>, i: int, out: Seq<char>) -> Seq<char> {
    match ev[i] {
        MdEventView::Text(t) | MdEventView::Code(t) | MdEventView::Html(t)
        | MdEventView::InlineHtml(t) | MdEventView::FootnoteReference(t) => out + t,
        MdEventView::InlineMath(t) => out.push('$') + t + seq!['$'],
        MdEventView::DisplayMath(t) => out + seq!['$', '$'] + t + seq!['$', '$'],
        MdEventView::SoftBreak | MdEventView::HardBreak | MdEventView::Rule => out.push('\n'),
        MdEventView::TaskListMarker(checked) => out + if checked {
            seq!['[', 'x', ']', ' ']
        } else {
            seq!['[', ' ', ']', ' ']
        },
        MdEventView::Start(k) => if spec_is_block_start(spec_kind_name(k)) && out.len() > 0
            && out.last() != '\n' {
            out.push('\n')
        } else {
            out
        },
        MdEventView::End(k) => {
            let kind = spec_kind_name(k);
            if spec_is_block_end(kind) {
                if !(out.len() > 0 && out.last() == '\n') {
                    out.push('\n')
                } else {
                    out
                }
            } else if kind == "TableCell"@ {
                let next = if i + 1 < ev.len() {
                    Some(ev[i + 1])
                } else {
                    None
                };
                if spec_cell_space(next, out) {
                    out.push(' ')
                } else {
                    out
                }
            } else {
                out
            }
        },
    }
}

/// The output after rendering events `i..`.
pub open spec fn spec_md_render_from(ev: Seq<MdEventView>, i: int, out: Seq<char>) -> Seq<char>
    decreases ev.len() - i,
{
    if i < 0 || i >= ev.len() {
        out
    } else {
        spec_md_render_from(ev, i + 1, spec_md_step(ev, i, out))
    }
}

/// The whole stage: the rendered events, trimmed.
pub open spec fn spec_strip_markdown(text: Seq<char>) -> Seq<char> {
    spec_trim(spec_md_render_from(spec_markdown_events(text, MARKDOWN_OPTIONS), 0, Seq::empty()))
}

fn kind_name(s: &String) -> (r: String)
    ensures
        r@ == spec_kind_name(s@),
{
    let v = str_chars(s.as_str());
    let n = v.len();
    let mut k: usize = 0;
    let mut out = String::new();
    assert(v@.subrange(0, n as int) =~= v@);
    assert(Seq::<char>::empty() + spec_kind_name(v@) =~= spec_kind_name(v@));
    while k < n && v[k] != '(' && v[k] != ' '
        invariant
            k <= n,
            n == v@.len(),
            spec_kind_name(s@) == out@ + spec_kind_name(v@.subrange(k as int, n as int)),
        decreases n - k,
    {
        assert(v@.subrange(k as int, n as int).drop_first() =~= v@.subrange(k + 1, n as int));
        crate::text::push_char(&mut out, v[k]);
        assert(out@.drop_last() + (seq![v@[k as int]] + spec_kind_name(v@.subrange(k + 1, n as int)))
            =~= out@ + spec_kind_name(v@.subrange(k + 1, n as int)));
        k = k + 1;
    }
    assert(spec_kind_name(v@.subrange(k as int, n as int)) =~= Seq::<char>::empty());
    assert(out@ + Seq::<char>::empty() =~= out@);
    proof {
        assert(v@.subrange(0, n as int) =~= v@);
    }
    out
}

fn is_block_start(k: &str) -> (r: bool)
    ensures
        r == spec_is_block_start(k@),
{
    str_eq(k, "Paragraph") || str_eq(k, "Heading") || str_eq(k, "BlockQuote") || str_eq(
        k,
        "CodeBlock",
    ) || str_eq(k, "List") || str_eq(k, "Item") || str_eq(k, "Table") || str_eq(k, "TableRow")
}

fn is_block_end(k: &str) -> (r: bool)
    ensures
        r == spec_is_block_end(k@),
{
    str_eq(k, "Paragraph") || str_eq(k, "Heading") || str_eq(k, "BlockQuote") || str_eq(
        k,
        "CodeBlock",
    ) || str_eq(k, "List") || str_eq(k, "Item") || str_eq(k, "Table") || str_eq(k, "TableHead")
        || str_eq(k, "TableRow")
}

fn is_cell_block_end(k: &str) -> (r: bool)
    ensures
        r == spec_is_cell_block_end(k@),
{
    str_eq(k, "Paragraph") || str_eq(k, "Table") || str_eq(k, "TableHead") || str_eq(k, "List")
        || str_eq(k, "Item")
}

fn push_str_chars(out: &mut Vec<char>, t: &String)
    ensures
        final(out)@ == old(out)@ + t@,
{
    let v = str_chars(t.as_str());
    extend_chars(out, &v);
}

fn cell_space(next: Option<&MdEvent>, out: &Vec<char>) -> (r: bool)
    ensures
        r == spec_cell_space(
            match next {
                Some(e) => Some(e.view()),
                None => None,
            },
            out@,
        ),
{
    let (row_end, newline, block_end) = match next {
        Some(MdEvent::End(k)) => {
            let kind = kind_name(k);
            (str_eq(kind.as_str(), "TableRow"), false, is_cell_block_end(kind.as_str()))
        },
        Some(MdEvent::SoftBreak) => (false, true, false),
        Some(MdEvent::HardBreak) => (false, true, false),
        _ => (false, false, false),
    };
    let ends_ws = out.len() > 0 && is_whitespace(out[out.len() - 1]);
    !row_end && !newline && !block_end && !ends_ws
}

/// Renders the events of a Markdown document to its visible text: text,
/// code, HTML and footnote references are kept as they stand.
pub fn render_events(events: &Vec<MdEvent>) -> (r: Vec<char>)
    ensures
        r@ == spec_md_render_from(md_events_view(events@), 0, Seq::empty()),
{
    let ghost ev = md_events_view(events@);
    let n = events.len();
    let mut out: Vec<char> = Vec::new();
    let mut i: usize = 0;
    while i < n
        invariant
            i <= n,
            n == events@.len(),
            ev == md_events_view(events@),
            spec_md_render_from(ev, 0, Seq::empty()) == spec_md_render_from(ev, i as int, out@),
        decreases n - i,
    {
        let ghost out0 = out@;
        assert(ev[i as int] == events@[i as int].view());
        match &events[i] {
            MdEvent::Text(t) | MdEvent::Code(t) | MdEvent::Html(t) | MdEvent::InlineHtml(t)
            | MdEvent::FootnoteReference(t) => {
                push_str_chars(&mut out, t);
            },
            MdEvent::InlineMath(t) => {
                out.push('$');
                push_str_chars(&mut out, t);
                out.push('$');
            },
            MdEvent::DisplayMath(t) => {
                out.push('$');
                out.push('$');
                push_str_chars(&mut out, t);
                out.push('$');
                out.push('$');
                assert(out@ =~= out0 + seq!['$', '$'] + t@ + seq!['$', '$']);
            },
            MdEvent::SoftBreak | MdEvent::HardBreak | MdEvent::Rule => {
                out.push('\n');
            },
            MdEvent::TaskListMarker(checked) => {
                if *checked {
                    out.push('[');
                    out.push('x');
                    out.push(']');
                    out.push(' ');
                } else {
                    out.push('[');
                    out.push(' ');
                    out.push(']');
                    out.push(' ');
                }
                assert(out@ =~= spec_md_step(ev, i as int, out0));
            },
            MdEvent::Start(k) => {
                let kind = kind_name(k);
                if is_block_start(kind.as_str()) && out.len() > 0 && out[out.len() - 1] != '\n' {
                    out.push('\n');
                }
            },
            MdEvent::End(k) => {
                let kind = kind_name(k);
                if is_block_end(kind.as_str()) {
                    if !(out.len() > 0 && out[out.len() - 1] == '\n') {
                        out.push('\n');
                    }
                } else if str_eq(kind.as_str(), "TableCell") {
                    let next = if i + 1 < n {
                        Some(&events[i + 1])
                    } else {
                        None
                    };
                    proof {
                        if i + 1 < n {
                            assert(ev[i + 1] == events@[i + 1].view());
                        }
                    }
                    if cell_space(next, &out) {
                        out.push(' ');
                    }
                }
            },
        }
        assert(out@ =~= spec_md_step(ev, i as int, out0));
        i = i + 1;
    }
    out
}

proof fn lemma_ascii_byte_of(v: u32)
    requires
        v < 0x80,
    ensures
        ((v & 0x7F) as u8) as u32 == v,
{
    assert(((v & 0x7F) as u8) as u32 == v) by (bit_vector)
        requires
            v < 0x80,
    ;
}

/// The UTF-8 encoding of a text starts with the bytes of its leading ASCII
/// characters.
proof fn lemma_ascii_prefix_bytes(t: Seq<char>, k: int)
    requires
        0 <= k <= t.len(),
        forall|j: int| 0 <= j < k ==> (#[trigger] t[j] as u32) < 0x80,
    ensures
        vstd::utf8::encode_utf8(t).len() >= k,
        k == t.len() ==> vstd::utf8::encode_utf8(t).len() == k,
        forall|j: int| 0 <= j < k ==> (#[trigger] vstd::utf8::encode_utf8(t)[j]) as u32 == t[j] as u32,
    decreases k,
{
    if k > 0 {
        let r = t.drop_first();
        assert forall|j: int| 0 <= j < k - 1 implies (#[trigger] r[j] as u32) < 0x80 by {
            assert(r[j] == t[j + 1]);
        }
        lemma_ascii_prefix_bytes(r, k - 1);
        let v = t[0] as u32;
        assert((t[0] as u32) < 0x80);
        lemma_ascii_byte_of(v);
        let e = vstd::utf8::encode_scalar(v);
        assert(e == seq![vstd::utf8::leading_byte_width_1(v)]);
        let b = vstd::utf8::encode_utf8(t);
        assert(b == e + vstd::utf8::encode_utf8(r));
        assert forall|j: int| 0 <= j < k implies (#[trigger] b[j]) as u32 == t[j] as u32 by {
            if j > 0 {
                assert(b[j] == vstd::utf8::encode_utf8(r)[j - 1]);
                assert(r[j - 1] == t[j]);
            }
        }
    } else {
        if t.len() == 0 {
            assert(vstd::utf8::encode_utf8(t) =~= Seq::<u8>::empty());
        }
    }
}

/// Strips Markdown formatting while keeping the visible text and the
/// logical structure.
///
/// Parses with strikethrough, tables, task lists, footnotes and math enabled.
/// Inline formatting is dropped, code and math are kept (math with its `$`
/// delimiters), blocks become line breaks, task markers become `[x] ` or
/// `[ ] `, table cells are separated by spaces and rows by line breaks. The
/// result is trimmed.
///
/// A text in which the quick check finds neither a Markdown marker nor
/// anything else the parser would act on (whitespace at either end, a
/// carriage return, a NUL, a character reference, an escape, a tag, a link
/// definition, a blank or indented line, a list marker or heading underline
/// at the start of a line) comes back as it is.
#[derive(Debug, Default, Clone, Copy)]
pub struct StripMarkdown;

pub open spec fn spec_is_space_or_tab(c: char) -> bool {
    c == ' ' || c == '\t'
}

pub open spec fn spec_is_ascii_digit(c: char) -> bool {
    '0' <= c && c <= '9'
}

pub open spec fn spec_is_ascii_alnum(c: char) -> bool {
    spec_is_ascii_digit(c) || ('a' <= c && c <= 'z') || ('A' <= c && c <= 'Z')
}

/// ASCII punctuation, the characters a backslash escapes.
pub open spec fn spec_is_ascii_punct(c: char) -> bool {
    ('!' <= c && c <= '/') || (':' <= c && c <= '@') || ('[' <= c && c <= '`') || ('{' <= c && c
        <= '~')
}

/// The position of the first character at or after `j` that is not an
/// ASCII digit, or the end.
pub open spec fn spec_char_digits_end(t: Seq<char>, j: int) -> int
    decreases t.len() - j,
{
    if j < 0 || j >= t.len() || !spec_is_ascii_digit(t[j]) {
        j
    } else {
        spec_char_digits_end(t, j + 1)
    }
}

/// An ordered list marker starts at `j`: digits, then `.` or `)`, then the
/// end, a space, a tab or a line break.
pub open spec fn spec_ordered_marker_at(t: Seq<char>, j: int) -> bool {
    let k = spec_char_digits_end(t, j);
    &&& 0 <= j < k < t.len()
    &&& (t[k] == '.' || t[k] == ')')
    &&& (k + 1 == t.len() || spec_is_space_or_tab(t[k + 1]) || t[k + 1] == '\n')
}

/// What a line starting at `j` (after a line break) opens for the parser:
/// indentation, a blank line, a list item, a heading underline.
pub open spec fn spec_md_line_start_risk(t: Seq<char>, j: int) -> bool {
    0 <= j < t.len() && (spec_is_space_or_tab(t[j]) || t[j] == '\n' || t[j] == '-' || t[j] == '+'
        || t[j] == '=' || spec_ordered_marker_at(t, j))
}

/// What the parser may act on at position `i`, outside the Markdown markers
/// the quick check scans for: a carriage return, a NUL, a character
/// reference, a backslash escape, an HTML tag or autolink, a link
/// definition, a line break that ends a line in blanks or starts a line the
/// parser reads as a block, and a list marker at the start.
pub open spec fn spec_md_risk_at(t: Seq<char>, i: int) -> bool {
    let n = t.len() as int;
    let c = t[i];
    ||| c == '\r' || (c as u32) == 0
    ||| c == '&' && i + 1 < n && (spec_is_ascii_alnum(t[i + 1]) || t[i + 1] == '#')
    ||| c == '\\' && i + 1 < n && (spec_is_ascii_punct(t[i + 1]) || t[i + 1] == '\n')
    ||| c == '<' && i + 1 < n && (('a' <= t[i + 1] && t[i + 1] <= 'z') || ('A' <= t[i + 1]
        && t[i + 1] <= 'Z') || t[i + 1] == '/' || t[i + 1] == '!' || t[i + 1] == '?')
    ||| c == ']' && i + 1 < n && t[i + 1] == ':'
    ||| c == '\n' && ((i > 0 && spec_is_space_or_tab(t[i - 1])) || spec_md_line_start_risk(t, i + 1))
    ||| i == 0 && (((c == '-' || c == '+') && (n == 1 || spec_is_space_or_tab(t[1]) || t[1] == '\n'))
        || spec_ordered_marker_at(t, 0))
}

/// What the parser may change in a text that holds no Markdown marker:
/// whitespace at either end, or something at some position.
pub open spec fn spec_md_plain_risk(text: Seq<char>) -> bool {
    ||| spec_trim(text) != text
    ||| exists|i: int| 0 <= i < text.len() && #[trigger] spec_md_risk_at(text, i)
}

fn is_space_or_tab(c: char) -> (r: bool)
    ensures
        r == spec_is_space_or_tab(c),
{
    c == ' ' || c == '\t'
}

fn char_digits_end(t: &Vec<char>, j: usize) -> (r: usize)
    requires
        j <= t@.len(),
    ensures
        r == spec_char_digits_end(t@, j as int),
        j <= r <= t@.len(),
{
    let mut k = j;
    while k < t.len() && '0' <= t[k] && t[k] <= '9'
        invariant
            j <= k <= t@.len(),
            spec_char_digits_end(t@, j as int) == spec_char_digits_end(t@, k as int),
        decreases t@.len() - k,
    {
        k = k + 1;
    }
    k
}

fn ordered_marker_at(t: &Vec<char>, j: usize) -> (r: bool)
    requires
        j <= t@.len(),
    ensures
        r == spec_ordered_marker_at(t@, j as int),
{
    let k = char_digits_end(t, j);
    if !(j < k && k < t.len()) {
        return false;
    }
    if !(t[k] == '.' || t[k] == ')') {
        return false;
    }
    k + 1 == t.len() || is_space_or_tab(t[k + 1]) || t[k + 1] == '\n'
}

fn md_line_start_risk(t: &Vec<char>, j: usize) -> (r: bool)
    requires
        j <= t@.len(),
    ensures
        r == spec_md_line_start_risk(t@, j as int),
{
    if j >= t.len() {
        return false;
    }
    let c = t[j];
    is_space_or_tab(c) || c == '\n' || c == '-' || c == '+' || c == '=' || ordered_marker_at(t, j)
}

fn md_risk_at(t: &Vec<char>, i: usize) -> (r: bool)
    requires
        i < t@.len(),
    ensures
        r == spec_md_risk_at(t@, i as int),
{
    let n = t.len();
    let c = t[i];
    if c == '\r' || (c as u32) == 0 {
        return true;
    }
    if i + 1 < n {
        let d = t[i + 1];
        let alnum = ('0' <= d && d <= '9') || ('a' <= d && d <= 'z') || ('A' <= d && d <= 'Z');
        let punct = ('!' <= d && d <= '/') || (':' <= d && d <= '@') || ('[' <= d && d <= '`') || (
        '{' <= d && d <= '~');
        if c == '&' && (alnum || d == '#') {
            return true;
        }
        if c == '\\' && (punct || d == '\n') {
            return true;
        }
        if c == '<' && (('a' <= d && d <= 'z') || ('A' <= d && d <= 'Z') || d == '/' || d == '!'
            || d == '?') {
            return true;
        }
        if c == ']' && d == ':' {
            return true;
        }
    }
    if c == '\n' {
        if i > 0 && is_space_or_tab(t[i - 1]) {
            return true;
        }
        if md_line_start_risk(t, i + 1) {
            return true;
        }
    }
    if i == 0 {
        if (c == '-' || c == '+') && (n == 1 || is_space_or_tab(t[1]) || t[1] == '\n') {
            return true;
        }
        if ordered_marker_at(t, 0) {
            return true;
        }
    }
    false
}

fn md_plain_risk(text: &str) -> (r: bool)
    ensures
        r == spec_md_plain_risk(text@),
{
    let chars = str_chars(text);
    let trimmed = trim_chars(&chars);
    if !crate::text::chars_eq(&trimmed, &chars) {
        return true;
    }
    let n = chars.len();
    for i in 0..n
        invariant
            n == chars@.len(),
            chars@ == text@,
            spec_trim(text@) == text@,
            forall|j: int| 0 <= j < i ==> !#[trigger] spec_md_risk_at(text@, j),
    {
        if md_risk_at(&chars, i) {
            assert(spec_md_risk_at(text@, i as int));
            return true;
        }
    }
    false
}

/// The quick check: a Markdown marker, or something else the parser would
/// act on.
pub open spec fn spec_md_needs(text: Seq<char>) -> bool {
    text.len() > 0 && (spec_contains_markdown(vstd::utf8::encode_utf8(text)) || spec_md_plain_risk(
        text,
    ))
}


impl StripMarkdown {
    /// A text whose first line is a thematic break (`---`, `***` or `___`,
    /// then the end, a space, a tab, a carriage return or a line feed) goes
    /// to the parser: the quick check says yes, and `apply` gives the
    /// rendered text.
    pub proof fn lemma_thematic_break_needs_parsing(t: Seq<char>, ctx: &Context)
        requires
            t.len() >= 3,
            t[0] == '-' || t[0] == '*' || t[0] == '_',
            t[1] == t[0],
            t[2] == t[0],
            t.len() == 3 || t[3] == ' ' || t[3] == '\t' || t[3] == '\r' || t[3] == '\n',
        ensures
            StripMarkdown.spec_needs_apply(t, ctx),
            StripMarkdown.spec_apply(t, ctx) == spec_strip_markdown(t),
    {
        let k: int = if t.len() == 3 {
            3
        } else {
            4
        };
        assert forall|j: int| 0 <= j < k implies (#[trigger] t[j] as u32) < 0x80 by {
        }
        lemma_ascii_prefix_bytes(t, k);
        let b = vstd::utf8::encode_utf8(t);
        assert(b[0] as u32 == t[0] as u32 && b[1] as u32 == t[1] as u32 && b[2] as u32 == t[2] as u32);
        assert(spec_rule_triple_at(b, 0));
        if t.len() > 3 {
            assert(b[3] as u32 == t[3] as u32);
        }
        assert(spec_rule_end_ok(b, 3));
        assert(spec_has_horizontal_rule(b));
        assert(spec_contains_markdown(b));
    }
}

impl Stage for StripMarkdown {
    open spec fn spec_needs_apply(&self, text: Seq<char>, ctx: &Context) -> bool {
        spec_md_needs(text)
    }

    open spec fn spec_apply(&self, text: Seq<char>, ctx: &Context) -> Seq<char> {
        if spec_md_needs(text) {
            spec_strip_markdown(text)
        } else {
            text
        }
    }

    open spec fn spec_skip_sound(&self, text: Seq<char>, ctx: &Context) -> bool {
        true
    }

    fn name(&self) -> (r: &'static str)
        ensures
            r@ == "strip_markdown"@,
    {
        "strip_markdown"
    }

    fn needs_apply(&self, text: &str, ctx: &Context) -> (r: Result<bool, StageError>) {
        Ok(!text.is_empty() && (contains_markdown_bytes(text) || md_plain_risk(text)))
    }

    /// A text the quick check finds plain comes back as it came.
    fn apply<'a>(&self, text: Cow<'a, str>, ctx: &Context) -> (r: Result<Cow<'a, str>, StageError>)
        ensures
            !spec_md_needs(text@) ==> r == Ok::<Cow<'a, str>, StageError>(text),
    {
        let needed = {
            let t: &str = match &text {
                Cow::Borrowed(b) => b,
                Cow::Owned(o) => o.as_str(),
            };
            !t.is_empty() && (contains_markdown_bytes(t) || md_plain_risk(t))
        };
        if !needed {
            return Ok(text);
        }
        let t: &str = match &text {
            Cow::Borrowed(b) => b,
            Cow::Owned(o) => o.as_str(),
        };
        let events = markdown_events(t, MARKDOWN_OPTIONS);
        let out = render_events(&events);
        let trimmed = trim_chars(&out);
        Ok(Cow::Owned(chars_to_string(&trimmed)))
    }

    open spec fn spec_safe_skip(&self) -> bool {
        false
    }

    fn safe_skip_approximation(&self) -> (r: bool) {
        false
    }

    proof fn lemma_apply_when_not_needed(&self, text: Seq<char>, ctx: &Context) {
    }
}

impl StaticFusableStage for StripMarkdown {

    open spec fn spec_sound_everywhere(&self, ctx: &Context) -> bool {
        true
    }

    proof fn lemma_sound_everywhere(&self, text: Seq<char>, ctx: &Context) {
    }
    open spec fn spec_supports_static_fusion(&self) -> bool {
        false
    }

    open spec fn spec_fused(&self, text: Seq<char>, ctx: &Context) -> Seq<char> {
        text
    }

    open spec fn spec_fused_sound(&self, text: Seq<char>, ctx: &Context) -> bool {
        true
    }

    fn supports_static_fusion(&self) -> (r: bool) {
        false
    }

    fn fused_apply(&self, text: &str, ctx: &Context) -> (r: String) {
        let chars = str_chars(text);
        chars_to_string(&chars)
    }

    proof fn lemma_fused_is_apply(&self, text: Seq<char>, ctx: &Context) {
    }
}

} // verus!
