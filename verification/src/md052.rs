//! MD052: reference links and images should use a defined label.
//!
//! The text is read byte by byte; each byte of a label is read as the
//! character with that code.
use vstd::prelude::*;
use vstd::string::StringExecFns;
use crate::document::Document;
use crate::text::{alphanumeric, byte_len, lowercase};
use crate::md043::string_views;
use crate::config::{as_bool, as_str_array, config_entry, entry_bool, entry_strings, toml_get};
use vstd::string::StrSliceExecFns;
use vstd::utf8::encode_utf8;
use crate::violation::{new_violation, violation_model, Severity, Violation, ViolationModel};

verus! {

/// Rule that flags reference links and images whose label is not defined.
pub struct MD052 {
    /// Labels (lowercase) that need no definition, such as task list marks.
    pub ignored_labels: Vec<String>,
    /// Whether shortcut references are checked (kept for configuration).
    pub shortcut_syntax: bool,
}

/// The byte at `p`, if any.
pub open spec fn byte_at(b: Seq<u8>, p: int) -> Option<u8> {
    if 0 <= p < b.len() {
        Some(b[p])
    } else {
        None
    }
}

/// `c` is a space or a tab.
pub open spec fn blank_byte(c: u8) -> bool {
    c == 32u8 || c == 9u8
}

/// The first index at or after `p` whose byte is not a space or a tab, or
/// `b.len()`.
pub open spec fn skip_blanks(b: Seq<u8>, p: int) -> int
    decreases b.len() - p,
{
    if p < 0 || p >= b.len() || !blank_byte(b[p]) {
        p
    } else {
        skip_blanks(b, p + 1)
    }
}

/// The first index at or after `p` whose byte is not `c`, or `b.len()`.
pub open spec fn byte_run(b: Seq<u8>, p: int, c: u8) -> int
    decreases b.len() - p,
{
    if p < 0 || p >= b.len() || b[p] != c {
        p
    } else {
        byte_run(b, p + 1, c)
    }
}

/// The first index at or after `p` whose byte is a line feed, or `b.len()`.
pub open spec fn next_lf(b: Seq<u8>, p: int) -> int
    decreases b.len() - p,
{
    if p < 0 || p >= b.len() || b[p] == 10u8 {
        p
    } else {
        next_lf(b, p + 1)
    }
}

/// Link text from `p`, with `d` inner brackets open and `acc` read so far:
/// the text up to the `]` that closes it and that `]`'s index, or `None` and
/// where reading stopped (a line feed or the end). A backslash keeps the
/// byte after it.
pub open spec fn link_text(b: Seq<u8>, p: int, d: int, acc: Seq<char>) -> (Option<Seq<char>>, int)
    decreases b.len() - p,
{
    if p < 0 || p >= b.len() {
        (None, p)
    } else if b[p] == 91u8 {
        link_text(b, p + 1, d + 1, acc.push('['))
    } else if b[p] == 93u8 {
        if d > 0 {
            link_text(b, p + 1, d - 1, acc.push(']'))
        } else {
            (Some(acc), p)
        }
    } else if b[p] == 92u8 {
        if p + 1 < b.len() {
            link_text(b, p + 2, d, acc.push('\\').push(b[p + 1] as char))
        } else {
            (None, p + 1)
        }
    } else if b[p] == 10u8 {
        (None, p)
    } else {
        link_text(b, p + 1, d, acc.push(b[p] as char))
    }
}

/// A reference label from `p`: the text up to `]` and the index after it,
/// or `None` and where reading stopped (a line feed or the end).
pub open spec fn reference_label(b: Seq<u8>, p: int, acc: Seq<char>) -> (Option<Seq<char>>, int)
    decreases b.len() - p,
{
    if p < 0 || p >= b.len() {
        (None, p)
    } else if b[p] == 93u8 {
        (Some(acc), p + 1)
    } else if b[p] == 10u8 {
        (None, p)
    } else {
        reference_label(b, p + 1, acc.push(b[p] as char))
    }
}

/// Where an inline URL that opens before `p` ends, with `d` parentheses
/// open: one past the `)` that closes it, or the end.
pub open spec fn url_end(b: Seq<u8>, p: int, d: int) -> int
    decreases b.len() - p,
{
    if p < 0 || p >= b.len() {
        p
    } else if b[p] == 40u8 {
        url_end(b, p + 1, d + 1)
    } else if b[p] == 41u8 {
        if d - 1 == 0 {
            p + 1
        } else {
            url_end(b, p + 1, d - 1)
        }
    } else if b[p] == 92u8 {
        if p + 1 < b.len() {
            url_end(b, p + 2, d)
        } else {
            p + 1
        }
    } else {
        url_end(b, p + 1, d)
    }
}

/// Where a wiki link whose text starts at `p` ends: one or two past its
/// first `]` (two when a second `]` follows), or at a line feed, or the end.
pub open spec fn wiki_end(b: Seq<u8>, p: int) -> int
    decreases b.len() - p,
{
    if p < 0 || p >= b.len() {
        p
    } else if b[p] == 93u8 {
        if byte_at(b, p + 1) == Some(93u8) {
            p + 2
        } else {
            p + 1
        }
    } else if b[p] == 10u8 {
        p
    } else {
        wiki_end(b, p + 1)
    }
}

/// Number of backslashes just before `p`.
pub open spec fn backslashes_before(b: Seq<u8>, p: int) -> int
    decreases p,
{
    if p <= 0 || p > b.len() || b[p - 1] != 92u8 {
        0
    } else {
        1 + backslashes_before(b, p - 1)
    }
}

/// The line that starts at `ls` is a heading: `#` after spaces and tabs.
pub open spec fn heading_at(b: Seq<u8>, ls: int) -> bool {
    let k = skip_blanks(b, ls);
    0 <= k < b.len() && b[k] == 35u8
}

/// What the link scanner knows between two steps.
pub struct LinkState {
    pub pos: int,
    pub line: int,
    pub line_start: int,
    pub code: bool,
    pub inline_math: bool,
    pub display_math: bool,
    pub heading: bool,
}

/// What the link scanner reports.
pub enum LinkFound {
    /// A reference link, with its label, line and column.
    Reference(Seq<char>, int, int),
    /// A reference image, with its label, line and column.
    Image(Seq<char>, int, int),
    /// An inline link or image.
    Inline,
}

/// The state with the position moved to `p`.
pub open spec fn at_pos(st: LinkState, p: int) -> LinkState {
    LinkState { pos: p, ..st }
}

/// The backticks at `pos` open a code fence: only spaces and tabs come
/// before them on their line, and there are at least three.
pub open spec fn code_fence_at(b: Seq<u8>, st: LinkState) -> bool {
    &&& forall|k: int| st.line_start <= k < st.pos ==> #[trigger] blank_byte(b[k])
    &&& byte_run(b, st.pos, 96u8) - st.pos >= 3
}

/// A fence line toggles code and is passed over up to its line feed.
pub open spec fn toggle_fence(b: Seq<u8>, st: LinkState) -> LinkState {
    let e = next_lf(b, st.pos);
    if e < b.len() {
        LinkState { pos: e + 1, line: st.line + 1, line_start: e + 1, code: !st.code, ..st }
    } else {
        LinkState { pos: e, code: !st.code, ..st }
    }
}

/// Scanning a code span's content from `q` for `bt` backticks, with `found`
/// seen in a row: whether they were found, where the scan stopped, and the
/// line and line start it reached.
pub open spec fn span_scan(b: Seq<u8>, q: int, bt: int, found: int, line: int, ls: int) -> (bool, int, int, int)
    decreases b.len() - q,
{
    if q < 0 || q >= b.len() {
        (false, q, line, ls)
    } else if b[q] == 96u8 {
        if found + 1 == bt {
            (true, q + 1, line, ls)
        } else {
            span_scan(b, q + 1, bt, found + 1, line, ls)
        }
    } else if b[q] == 10u8 {
        span_scan(b, q + 1, bt, 0, line + 1, q + 1)
    } else {
        span_scan(b, q + 1, bt, 0, line, ls)
    }
}

/// A code span is passed over; when it has no end, the scan goes on just
/// after its first backtick, keeping the lines it counted.
pub open spec fn skip_span(b: Seq<u8>, st: LinkState) -> LinkState {
    let r = byte_run(b, st.pos + 1, 96u8);
    let s = span_scan(b, r, r - st.pos, 0, st.line, st.line_start);
    LinkState { pos: if s.0 { s.1 } else { st.pos + 1 }, line: s.2, line_start: s.3, ..st }
}

/// A `$` toggles inline math, `$$` display math; an escaped one is passed.
pub open spec fn math_step(b: Seq<u8>, st: LinkState) -> LinkState {
    if backslashes_before(b, st.pos) % 2 == 1 {
        at_pos(st, st.pos + 1)
    } else if byte_at(b, st.pos + 1) == Some(36u8) {
        LinkState { pos: st.pos + 2, display_math: !st.display_math, ..st }
    } else {
        LinkState { pos: st.pos + 1, inline_math: !st.inline_math, ..st }
    }
}

/// `s` looks like an index: one to ten bytes of alphanumerics, `_` and `-`.
pub open spec fn index_like(s: Seq<char>) -> bool {
    &&& s.len() > 0
    &&& byte_len(s) <= 10
    &&& forall|k: int| 0 <= k < s.len() ==> (alphanumeric(#[trigger] s[k]) || s[k] == '_' || s[k] == '-')
}

/// `text[label]` looks like array indexing rather than a reference.
pub open spec fn array_like(text: Seq<char>, label: Seq<char>) -> bool {
    label.len() > 0 && index_like(text) && index_like(label)
}

/// What follows `]` makes a shortcut reference likely: the end, whitespace,
/// or sentence punctuation.
pub open spec fn likely_reference(b: Seq<u8>, p: int) -> bool {
    match byte_at(b, p) {
        None => true,
        Some(c) => c == 32u8 || c == 9u8 || c == 10u8 || c == 13u8 || c == 46u8 || c == 44u8
            || c == 59u8 || c == 58u8 || c == 33u8 || c == 63u8,
    }
}

/// The first index at or after `k` below `lim` whose byte is not a space or a tab.
pub open spec fn blanks_until(b: Seq<u8>, k: int, lim: int) -> int
    decreases lim - k,
{
    if k >= lim || k < 0 || k >= b.len() || !blank_byte(b[k]) {
        k
    } else {
        blanks_until(b, k + 1, lim)
    }
}

/// The link that starts with the `[` at `st.pos`, and the state after it.
pub open spec fn parse_link(b: Seq<u8>, st: LinkState) -> (Option<LinkFound>, LinkState) {
    let start = st.pos;
    let col = st.pos - st.line_start + 1;
    if start > 0 && b[start - 1] == 94u8 {
        let t = link_text(b, start + 1, 0, seq![]);
        (None, at_pos(st, if t.0 is Some && byte_at(b, t.1) == Some(93u8) { t.1 + 1 } else { t.1 }))
    } else if start > 0 && b[start - 1] == 42u8 && blanks_until(b, st.line_start, start - 1) == start - 1 {
        let t = link_text(b, start + 1, 0, seq![]);
        if t.0 is Some && byte_at(b, t.1) == Some(93u8) && byte_at(b, t.1 + 1) == Some(58u8) {
            (None, at_pos(st, t.1 + 1))
        } else {
            (None, at_pos(st, start + 1))
        }
    } else {
        let t = link_text(b, start + 1, 0, seq![]);
        match t.0 {
            None => (None, at_pos(st, t.1)),
            Some(text) => {
                let q = t.1 + 1;
                if byte_at(b, q) == Some(40u8) {
                    (Some(LinkFound::Inline), at_pos(st, url_end(b, q + 1, 1)))
                } else if byte_at(b, q) == Some(91u8) {
                    let r = reference_label(b, q + 1, seq![]);
                    let label = match r.0 {
                        Some(l) => l,
                        None => seq![],
                    };
                    if st.heading && array_like(text, label) {
                        (None, at_pos(st, r.1))
                    } else {
                        (
                            Some(
                                LinkFound::Reference(
                                    if label.len() == 0 { text } else { label },
                                    st.line,
                                    col,
                                ),
                            ),
                            at_pos(st, r.1),
                        )
                    }
                } else if st.heading || !likely_reference(b, q) {
                    (None, at_pos(st, q))
                } else {
                    (Some(LinkFound::Reference(text, st.line, col)), at_pos(st, q))
                }
            },
        }
    }
}

/// The image that starts with the `![` at `st.pos`, and the state after it.
pub open spec fn parse_image(b: Seq<u8>, st: LinkState) -> (Option<LinkFound>, LinkState) {
    let col = st.pos - st.line_start + 1;
    let t = link_text(b, st.pos + 2, 0, seq![]);
    match t.0 {
        None => (None, at_pos(st, t.1)),
        Some(alt) => {
            let q = t.1 + 1;
            if byte_at(b, q) == Some(40u8) {
                (Some(LinkFound::Inline), at_pos(st, url_end(b, q + 1, 1)))
            } else if byte_at(b, q) == Some(91u8) {
                let r = reference_label(b, q + 1, seq![]);
                let label = match r.0 {
                    Some(l) => l,
                    None => seq![],
                };
                (
                    Some(LinkFound::Image(if label.len() == 0 { alt } else { label }, st.line, col)),
                    at_pos(st, r.1),
                )
            } else {
                (Some(LinkFound::Image(alt, st.line, col)), at_pos(st, q))
            }
        },
    }
}

/// Outside code and math.
pub open spec fn in_text(st: LinkState) -> bool {
    !st.code && !st.inline_math && !st.display_math
}

/// One step of the link scanner at `st.pos < b.len()`: what it reports and
/// the state after it. A link or image that reports nothing moves the scan
/// one byte further.
pub open spec fn link_step(b: Seq<u8>, st: LinkState) -> (Option<LinkFound>, LinkState) {
    let c = b[st.pos];
    if c == 96u8 {
        if code_fence_at(b, st) {
            (None, toggle_fence(b, st))
        } else if !st.code {
            (None, skip_span(b, st))
        } else {
            (None, at_pos(st, st.pos + 1))
        }
    } else if c == 36u8 && !st.code {
        (None, math_step(b, st))
    } else if c == 91u8 && in_text(st) {
        if byte_at(b, st.pos + 1) == Some(91u8) {
            (None, at_pos(st, wiki_end(b, st.pos + 2)))
        } else {
            let r = parse_link(b, st);
            match r.0 {
                Some(f) => (Some(f), r.1),
                None => (None, at_pos(r.1, r.1.pos + 1)),
            }
        }
    } else if c == 33u8 && in_text(st) {
        if byte_at(b, st.pos + 1) == Some(91u8) && byte_at(b, st.pos + 2) == Some(91u8) {
            (None, at_pos(st, wiki_end(b, st.pos + 3)))
        } else if byte_at(b, st.pos + 1) == Some(91u8) {
            let r = parse_image(b, st);
            match r.0 {
                Some(f) => (Some(f), r.1),
                None => (None, at_pos(r.1, r.1.pos + 1)),
            }
        } else {
            (None, at_pos(st, st.pos + 1))
        }
    } else if c == 10u8 {
        (
            None,
            LinkState {
                pos: st.pos + 1,
                line: st.line + 1,
                line_start: st.pos + 1,
                inline_math: false,
                heading: heading_at(b, st.pos + 1),
                ..st
            },
        )
    } else {
        (None, at_pos(st, st.pos + 1))
    }
}

pub proof fn lemma_link_text(b: Seq<u8>, p: int, d: int, acc: Seq<char>)
    requires
        0 <= p,
    ensures
        p <= link_text(b, p, d, acc).1,
        link_text(b, p, d, acc).1 <= b.len() || link_text(b, p, d, acc).1 == p,
        link_text(b, p, d, acc).0 is Some ==> link_text(b, p, d, acc).1 < b.len() && b[link_text(
            b,
            p,
            d,
            acc,
        ).1] == 93u8,
    decreases b.len() - p,
{
    if p < b.len() {
        if b[p] == 91u8 {
            lemma_link_text(b, p + 1, d + 1, acc.push('['));
        } else if b[p] == 93u8 {
            if d > 0 {
                lemma_link_text(b, p + 1, d - 1, acc.push(']'));
            }
        } else if b[p] == 92u8 {
            if p + 1 < b.len() {
                lemma_link_text(b, p + 2, d, acc.push('\\').push(b[p + 1] as char));
            }
        } else if b[p] != 10u8 {
            lemma_link_text(b, p + 1, d, acc.push(b[p] as char));
        }
    }
}

pub proof fn lemma_reference_label(b: Seq<u8>, p: int, acc: Seq<char>)
    requires
        0 <= p,
    ensures
        p <= reference_label(b, p, acc).1,
        reference_label(b, p, acc).1 <= b.len() || reference_label(b, p, acc).1 == p,
    decreases b.len() - p,
{
    if p < b.len() && b[p] != 93u8 && b[p] != 10u8 {
        lemma_reference_label(b, p + 1, acc.push(b[p] as char));
    }
}

pub proof fn lemma_url_end(b: Seq<u8>, p: int, d: int)
    requires
        0 <= p,
    ensures
        p <= url_end(b, p, d),
        url_end(b, p, d) <= b.len() || url_end(b, p, d) == p,
    decreases b.len() - p,
{
    if p < b.len() {
        if b[p] == 40u8 {
            lemma_url_end(b, p + 1, d + 1);
        } else if b[p] == 41u8 {
            if d - 1 != 0 {
                lemma_url_end(b, p + 1, d - 1);
            }
        } else if b[p] == 92u8 {
            if p + 1 < b.len() {
                lemma_url_end(b, p + 2, d);
            }
        } else {
            lemma_url_end(b, p + 1, d);
        }
    }
}

pub proof fn lemma_wiki_end(b: Seq<u8>, p: int)
    requires
        0 <= p,
    ensures
        p <= wiki_end(b, p),
        wiki_end(b, p) <= b.len() || wiki_end(b, p) == p,
    decreases b.len() - p,
{
    if p < b.len() && b[p] != 93u8 && b[p] != 10u8 {
        lemma_wiki_end(b, p + 1);
    }
}

pub proof fn lemma_byte_run(b: Seq<u8>, p: int, c: u8)
    requires
        0 <= p,
    ensures
        p <= byte_run(b, p, c),
        byte_run(b, p, c) <= b.len() || byte_run(b, p, c) == p,
    decreases b.len() - p,
{
    if p < b.len() && b[p] == c {
        lemma_byte_run(b, p + 1, c);
    }
}

pub proof fn lemma_next_lf(b: Seq<u8>, p: int)
    requires
        0 <= p <= b.len(),
    ensures
        p <= next_lf(b, p) <= b.len(),
        next_lf(b, p) < b.len() ==> b[next_lf(b, p)] == 10u8,
    decreases b.len() - p,
{
    if p < b.len() && b[p] != 10u8 {
        lemma_next_lf(b, p + 1);
    }
}

pub proof fn lemma_span_scan(b: Seq<u8>, q: int, bt: int, found: int, line: int, ls: int)
    requires
        0 <= q,
    ensures
        span_scan(b, q, bt, found, line, ls).0 ==> q < span_scan(b, q, bt, found, line, ls).1 <= b.len(),
        line <= span_scan(b, q, bt, found, line, ls).2,
        span_scan(b, q, bt, found, line, ls).2 <= line + (if q <= b.len() { b.len() - q } else { 0 }),
        span_scan(b, q, bt, found, line, ls).3 == ls || (q < span_scan(b, q, bt, found, line, ls).3
            <= b.len()),
    decreases b.len() - q,
{
    if q < b.len() {
        if b[q] == 96u8 {
            if found + 1 != bt {
                lemma_span_scan(b, q + 1, bt, found + 1, line, ls);
            }
        } else if b[q] == 10u8 {
            lemma_span_scan(b, q + 1, bt, 0, line + 1, q + 1);
        } else {
            lemma_span_scan(b, q + 1, bt, 0, line, ls);
        }
    }
}

/// One scanner step moves forward, and the line count grows by at most the
/// length of the text.
pub proof fn lemma_link_step(b: Seq<u8>, st: LinkState)
    requires
        0 <= st.pos < b.len(),
    ensures
        link_step(b, st).1.pos > st.pos,
        st.line <= link_step(b, st).1.line <= st.line + b.len(),
        link_step(b, st).1.pos <= b.len() + 2,
{
    let c = b[st.pos];
    lemma_link_text(b, st.pos + 1, 0, seq![]);
    lemma_link_text(b, st.pos + 2, 0, seq![]);
    let t1 = link_text(b, st.pos + 1, 0, seq![]);
    let t2 = link_text(b, st.pos + 2, 0, seq![]);
    lemma_url_end(b, t1.1 + 2, 1);
    lemma_url_end(b, t2.1 + 2, 1);
    lemma_reference_label(b, t1.1 + 2, seq![]);
    lemma_reference_label(b, t2.1 + 2, seq![]);
    lemma_wiki_end(b, st.pos + 2);
    lemma_wiki_end(b, st.pos + 3);
    lemma_next_lf(b, st.pos);
    lemma_byte_run(b, st.pos + 1, 96u8);
    let r = byte_run(b, st.pos + 1, 96u8);
    lemma_span_scan(b, r, r - st.pos, 0, st.line, st.line_start);
}

/// The scanner's reports from state `st` on.
pub open spec fn links_from(b: Seq<u8>, st: LinkState) -> Seq<LinkFound>
    decreases if 0 <= st.pos < b.len() { b.len() - st.pos } else { 0 },
{
    if st.pos < 0 || st.pos >= b.len() {
        seq![]
    } else {
        let r = link_step(b, st);
        proof {
            lemma_link_step(b, st);
        }
        (match r.0 {
            Some(f) => seq![f],
            None => seq![],
        }) + links_from(b, r.1)
    }
}

/// The step at `st` reads a link or an image, which needs the column of its
/// start.
pub open spec fn step_needs_column(b: Seq<u8>, st: LinkState) -> bool {
    let c = b[st.pos];
    ||| c == 91u8 && in_text(st) && byte_at(b, st.pos + 1) != Some(91u8)
    ||| c == 33u8 && in_text(st) && byte_at(b, st.pos + 1) == Some(91u8) && byte_at(b, st.pos + 2)
        != Some(91u8)
}

/// Every step from `st` on that reads a link or an image starts at or after
/// the start of the line the scanner knows, and the line count stays within
/// `limit`.
pub open spec fn links_safe(b: Seq<u8>, st: LinkState, limit: int) -> bool
    decreases if 0 <= st.pos < b.len() { b.len() - st.pos } else { 0 },
{
    if st.pos < 0 || st.pos >= b.len() {
        true
    } else {
        proof {
            lemma_link_step(b, st);
        }
        &&& step_needs_column(b, st) ==> st.line_start <= st.pos
        &&& st.line + b.len() <= limit
        &&& links_safe(b, link_step(b, st).1, limit)
    }
}

/// The scanner's first state.
pub open spec fn first_state(b: Seq<u8>) -> LinkState {
    LinkState {
        pos: 0,
        line: 1,
        line_start: 0,
        code: false,
        inline_math: false,
        display_math: false,
        heading: heading_at(b, 0),
    }
}

/// A reference definition's label from `p`: the text up to `]`, which must
/// not be empty, or `None` and where reading stopped (a line break or the end).
pub open spec fn definition_label(b: Seq<u8>, p: int, acc: Seq<char>) -> (Option<Seq<char>>, int)
    decreases b.len() - p,
{
    if p < 0 || p >= b.len() {
        (None, p)
    } else if b[p] == 93u8 {
        if acc.len() > 0 {
            (Some(acc), p)
        } else {
            (None, p)
        }
    } else if b[p] == 10u8 || b[p] == 13u8 {
        (None, p)
    } else {
        definition_label(b, p + 1, acc.push(b[p] as char))
    }
}

/// The definition `[label]:` that starts with the `[` at `start`, and where
/// reading goes on; when there is none, where the attempt left off.
pub open spec fn parse_definition(b: Seq<u8>, start: int) -> (Option<Seq<char>>, int) {
    let l = definition_label(b, start + 1, seq![]);
    match l.0 {
        None => (None, l.1),
        Some(label) => {
            if byte_at(b, l.1 + 1) != Some(58u8) {
                (None, start)
            } else {
                match byte_at(b, l.1 + 2) {
                    Some(c) => if c != 32u8 && c != 9u8 && c != 10u8 && c != 13u8 {
                        (None, start)
                    } else {
                        (Some(label), l.1 + 2)
                    },
                    None => (Some(label), l.1 + 2),
                }
            }
        },
    }
}

pub proof fn lemma_definition_label(b: Seq<u8>, p: int, acc: Seq<char>)
    requires
        0 <= p,
    ensures
        p <= definition_label(b, p, acc).1,
        definition_label(b, p, acc).1 <= b.len() || definition_label(b, p, acc).1 == p,
    decreases b.len() - p,
{
    if p < b.len() && b[p] != 93u8 && b[p] != 10u8 && b[p] != 13u8 {
        lemma_definition_label(b, p + 1, acc.push(b[p] as char));
    }
}

/// The labels of the reference definitions from `pos` on. Each line is read
/// after its leading spaces and tabs; one that does not start with `[` is
/// passed over.
pub open spec fn definitions_from(b: Seq<u8>, pos: int) -> Seq<Seq<char>>
    decreases if 0 <= pos < b.len() { b.len() + 1 - pos } else { 0 },
{
    if pos < 0 || pos >= b.len() {
        seq![]
    } else {
        let p = skip_blanks(b, pos);
        proof {
            lemma_skip_blanks(b, pos);
        }
        if p >= b.len() {
            seq![]
        } else if b[p] == 91u8 {
            let d = parse_definition(b, p);
            proof {
                lemma_definition_label(b, p + 1, seq![]);
            }
            match d.0 {
                Some(label) => seq![label] + definitions_from(b, d.1),
                None => definitions_from(b, d.1 + 1),
            }
        } else {
            let e = next_lf(b, p);
            proof {
                lemma_next_lf(b, p);
            }
            definitions_from(b, if e < b.len() { e + 1 } else { e })
        }
    }
}

pub proof fn lemma_skip_blanks(b: Seq<u8>, p: int)
    requires
        0 <= p <= b.len(),
    ensures
        p <= skip_blanks(b, p) <= b.len(),
    decreases b.len() - p,
{
    if p < b.len() && blank_byte(b[p]) {
        lemma_skip_blanks(b, p + 1);
    }
}

/// `s` holds `x`.
pub open spec fn holds_label(s: Seq<Seq<char>>, x: Seq<char>) -> bool {
    exists|k: int| 0 <= k < s.len() && s[k] == x
}

/// The violation for one report, given the lowercased defined labels and
/// the ignored labels: a reference or image whose lowercased label is neither.
pub open spec fn report_one(f: LinkFound, defined: Seq<Seq<char>>, ignored: Seq<Seq<char>>) -> Seq<
    ViolationModel,
> {
    match f {
        LinkFound::Reference(label, line, col) => if !holds_label(ignored, lowercase(label))
            && !holds_label(defined, lowercase(label)) {
            seq![
                violation_model(
                    "MD052"@,
                    "Reference link uses undefined label '"@ + label + "'"@,
                    line as usize,
                    col as usize,
                    Severity::Error,
                    None,
                ),
            ]
        } else {
            seq![]
        },
        LinkFound::Image(label, line, col) => if !holds_label(ignored, lowercase(label))
            && !holds_label(defined, lowercase(label)) {
            seq![
                violation_model(
                    "MD052"@,
                    "Reference image uses undefined label '"@ + label + "'"@,
                    line as usize,
                    col as usize,
                    Severity::Error,
                    None,
                ),
            ]
        } else {
            seq![]
        },
        LinkFound::Inline => seq![],
    }
}

/// The violations for the reports `links`, in order.
pub open spec fn md052_reports(links: Seq<LinkFound>, defined: Seq<Seq<char>>, ignored: Seq<Seq<char>>) -> Seq<
    ViolationModel,
>
    decreases links.len(),
{
    if links.len() == 0 {
        seq![]
    } else {
        report_one(links[0], defined, ignored) + md052_reports(
            links.subrange(1, links.len() as int),
            defined,
            ignored,
        )
    }
}

/// The violations MD052 reports on a text with UTF-8 bytes `b`.
pub open spec fn md052_violations(b: Seq<u8>, ignored: Seq<Seq<char>>) -> Seq<ViolationModel> {
    md052_reports(
        links_from(b, first_state(b)),
        definitions_from(b, 0).map_values(|l: Seq<char>| lowercase(l)),
        ignored,
    )
}

/// Law: a reference link or image whose label matches, ignoring case, a
/// label defined in the text draws no report.
pub proof fn md052_defined_label_passes(b: Seq<u8>, ignored: Seq<Seq<char>>, f: LinkFound, d: int)
    requires
        f is Reference || f is Image,
        0 <= d < definitions_from(b, 0).len(),
        lowercase(definitions_from(b, 0)[d]) == lowercase(
            match f {
                LinkFound::Reference(l, _, _) => l,
                LinkFound::Image(l, _, _) => l,
                LinkFound::Inline => seq![],
            },
        ),
    ensures
        report_one(f, definitions_from(b, 0).map_values(|l: Seq<char>| lowercase(l)), ignored)
            == Seq::<ViolationModel>::empty(),
{
    let defined = definitions_from(b, 0).map_values(|l: Seq<char>| lowercase(l));
    assert(defined[d] == lowercase(definitions_from(b, 0)[d]));
}

/// Law: every report of MD052 stands for one reference link or image of the
/// scan whose label, lowercased, is neither defined nor ignored, and names
/// that label.
pub proof fn md052_reports_undefined_only(links: Seq<LinkFound>, defined: Seq<Seq<char>>, ignored: Seq<Seq<char>>, k: int)
    requires
        0 <= k < md052_reports(links, defined, ignored).len(),
    ensures
        exists|j: int|
            0 <= j < links.len() && match #[trigger] links[j] {
                LinkFound::Reference(l, _, _) => !holds_label(defined, lowercase(l)) && !holds_label(
                    ignored,
                    lowercase(l),
                ) && md052_reports(links, defined, ignored)[k].message
                    == "Reference link uses undefined label '"@ + l + "'"@,
                LinkFound::Image(l, _, _) => !holds_label(defined, lowercase(l)) && !holds_label(
                    ignored,
                    lowercase(l),
                ) && md052_reports(links, defined, ignored)[k].message
                    == "Reference image uses undefined label '"@ + l + "'"@,
                LinkFound::Inline => false,
            },
    decreases links.len(),
{
    let first = report_one(links[0], defined, ignored);
    let rest_links = links.subrange(1, links.len() as int);
    let rest = md052_reports(rest_links, defined, ignored);
    assert(md052_reports(links, defined, ignored) == first + rest);
    if k < first.len() {
        assert(links[0] == links[0]);
    } else {
        md052_reports_undefined_only(rest_links, defined, ignored, k - first.len());
        let j = choose|j: int|
            0 <= j < rest_links.len() && match #[trigger] rest_links[j] {
                LinkFound::Reference(l, _, _) => !holds_label(defined, lowercase(l)) && !holds_label(
                    ignored,
                    lowercase(l),
                ) && rest[k - first.len()].message == "Reference link uses undefined label '"@ + l + "'"@,
                LinkFound::Image(l, _, _) => !holds_label(defined, lowercase(l)) && !holds_label(
                    ignored,
                    lowercase(l),
                ) && rest[k - first.len()].message == "Reference image uses undefined label '"@ + l + "'"@,
                LinkFound::Inline => false,
            };
        assert(links[j + 1] == rest_links[j]);
    }
}

/// The texts MD052 can check: short enough for positions past the end to fit
/// a `usize`, and read without the scanner's column falling before the start
/// of its line (which a code span that has no end can cause) or its line
/// count overflowing.
pub open spec fn md052_input_ok(b: Seq<u8>) -> bool {
    b.len() <= usize::MAX / 2 && links_safe(b, first_state(b), usize::MAX as int)
}

/// What the link scanner reports.
#[derive(Debug)]
pub enum LinkType {
    /// A reference link.
    Reference { label: String, line: usize, column: usize },
    /// A reference image.
    Image { label: String, line: usize, column: usize },
    /// An inline link or image.
    Inline,
}

/// The value of a report.
pub open spec fn link_view(l: LinkType) -> LinkFound {
    match l {
        LinkType::Reference { label, line, column } => LinkFound::Reference(label@, line as int, column as int),
        LinkType::Image { label, line, column } => LinkFound::Image(label@, line as int, column as int),
        LinkType::Inline => LinkFound::Inline,
    }
}

/// The link scanner's state.
pub struct LinkParser {
    pub pos: usize,
    pub line: usize,
    pub line_start: usize,
    pub in_code_block: bool,
    pub in_inline_math: bool,
    pub in_display_math: bool,
    pub on_heading_line: bool,
}

/// The value of a scanner state.
pub open spec fn parser_view(p: LinkParser) -> LinkState {
    LinkState {
        pos: p.pos as int,
        line: p.line as int,
        line_start: p.line_start as int,
        code: p.in_code_block,
        inline_math: p.in_inline_math,
        display_math: p.in_display_math,
        heading: p.on_heading_line,
    }
}

fn skip_blank_bytes(b: &[u8], p: usize) -> (r: usize)
    requires
        p <= b@.len(),
    ensures
        r as int == skip_blanks(b@, p as int),
        p <= r <= b@.len(),
{
    let mut k = p;
    while k < b.len() && (b[k] == 32u8 || b[k] == 9u8)
        invariant
            p <= k <= b@.len(),
            skip_blanks(b@, p as int) == skip_blanks(b@, k as int),
        decreases b@.len() - k,
    {
        k = k + 1;
    }
    k
}

/// Whether the line that starts at `ls` is a heading.
fn check_heading_line(b: &[u8], ls: usize) -> (r: bool)
    ensures
        r == heading_at(b@, ls as int),
{
    if ls > b.len() {
        return false;
    }
    let k = skip_blank_bytes(b, ls);
    k < b.len() && b[k] == 35u8
}

/// Link text from `p` (after the opening bracket).
fn parse_link_text(b: &[u8], p: usize) -> (r: (Option<Vec<char>>, usize))
    requires
        p <= b@.len(),
        b@.len() <= usize::MAX / 2,
    ensures
        (match r.0 {
            Some(v) => Some(v@),
            None => None,
        }) == link_text(b@, p as int, 0, seq![]).0,
        r.1 as int == link_text(b@, p as int, 0, seq![]).1,
{
    let mut text: Vec<char> = Vec::new();
    let mut depth: usize = 0;
    let mut k = p;
    while k < b.len()
        invariant
            p <= k <= b@.len(),
            b@.len() <= usize::MAX / 2,
            depth <= k,
            link_text(b@, p as int, 0, seq![]) == link_text(b@, k as int, depth as int, text@),
        decreases b@.len() - k,
    {
        let c = b[k];
        if c == 91u8 {
            depth = depth + 1;
            text.push('[');
            k = k + 1;
        } else if c == 93u8 {
            if depth > 0 {
                depth = depth - 1;
                text.push(']');
                k = k + 1;
            } else {
                return (Some(text), k);
            }
        } else if c == 92u8 {
            if k + 1 < b.len() {
                text.push('\\');
                text.push(b[k + 1] as char);
                k = k + 2;
            } else {
                return (None, k + 1);
            }
        } else if c == 10u8 {
            return (None, k);
        } else {
            text.push(c as char);
            k = k + 1;
        }
    }
    (None, k)
}

/// A reference label from `p` (after its opening bracket).
fn parse_reference_label(b: &[u8], p: usize) -> (r: (Option<Vec<char>>, usize))
    requires
        p <= b@.len(),
        b@.len() <= usize::MAX / 2,
    ensures
        (match r.0 {
            Some(v) => Some(v@),
            None => None,
        }) == reference_label(b@, p as int, seq![]).0,
        r.1 as int == reference_label(b@, p as int, seq![]).1,
{
    let mut label: Vec<char> = Vec::new();
    let mut k = p;
    while k < b.len()
        invariant
            p <= k <= b@.len(),
            reference_label(b@, p as int, seq![]) == reference_label(b@, k as int, label@),
        decreases b@.len() - k,
    {
        let c = b[k];
        if c == 93u8 {
            return (Some(label), k + 1);
        } else if c == 10u8 {
            return (None, k);
        }
        label.push(c as char);
        k = k + 1;
    }
    (None, k)
}

/// Where an inline URL whose `(` comes before `p` ends.
fn skip_inline_url(b: &[u8], p: usize) -> (r: usize)
    requires
        p <= b@.len(),
        b@.len() <= usize::MAX / 2,
    ensures
        r as int == url_end(b@, p as int, 1),
{
    let mut depth: usize = 1;
    let mut k = p;
    while k < b.len()
        invariant
            p <= k <= b@.len(),
            b@.len() <= usize::MAX / 2,
            1 <= depth <= k - p + 1,
            url_end(b@, p as int, 1) == url_end(b@, k as int, depth as int),
        decreases b@.len() - k,
    {
        let c = b[k];
        if c == 40u8 {
            depth = depth + 1;
            k = k + 1;
        } else if c == 41u8 {
            if depth == 1 {
                return k + 1;
            }
            depth = depth - 1;
            k = k + 1;
        } else if c == 92u8 {
            if k + 1 < b.len() {
                k = k + 2;
            } else {
                return k + 1;
            }
        } else {
            k = k + 1;
        }
    }
    k
}

/// Where a wiki link whose text starts at `p` ends.
fn skip_wiki_link(b: &[u8], p: usize) -> (r: usize)
    requires
        p <= b@.len(),
        b@.len() <= usize::MAX / 2,
    ensures
        r as int == wiki_end(b@, p as int),
{
    let mut k = p;
    while k < b.len()
        invariant
            p <= k <= b@.len(),
            wiki_end(b@, p as int) == wiki_end(b@, k as int),
        decreases b@.len() - k,
    {
        let c = b[k];
        if c == 93u8 {
            if k + 1 < b.len() && b[k + 1] == 93u8 {
                return k + 2;
            }
            return k + 1;
        } else if c == 10u8 {
            return k;
        }
        k = k + 1;
    }
    k
}

/// Whether `text[label]` looks like array indexing.
fn looks_like_array_notation(text: &[char], label: &[char]) -> (r: bool)
    ensures
        r == array_like(text@, label@),
{
    if label.len() == 0 {
        return false;
    }
    index_like_chars(text) && index_like_chars(label)
}

fn index_like_chars(s: &[char]) -> (r: bool)
    ensures
        r == index_like(s@),
{
    proof {
        crate::text::lemma_byte_len_ge(s@);
    }
    if s.len() == 0 || s.len() > 10 {
        return false;
    }
    let bl = crate::text::byte_len_prefix(s, s.len());
    assert(s@.take(s@.len() as int) == s@);
    if bl > 10 {
        return false;
    }
    let mut k: usize = 0;
    while k < s.len()
        invariant
            k <= s@.len(),
            forall|m: int| 0 <= m < k ==> (alphanumeric(#[trigger] s@[m]) || s@[m] == '_' || s@[m] == '-'),
        decreases s@.len() - k,
    {
        let c = s[k];
        if !(crate::text::is_alphanumeric(c) || c == '_' || c == '-') {
            return false;
        }
        k = k + 1;
    }
    true
}

fn byte_run_exec(b: &[u8], p: usize, c: u8) -> (r: usize)
    requires
        p <= b@.len(),
    ensures
        r as int == byte_run(b@, p as int, c),
        p <= r <= b@.len(),
{
    let mut k = p;
    while k < b.len() && b[k] == c
        invariant
            p <= k <= b@.len(),
            byte_run(b@, p as int, c) == byte_run(b@, k as int, c),
        decreases b@.len() - k,
    {
        k = k + 1;
    }
    k
}

impl LinkParser {
    /// The scanner at the start of the text `b`.
    pub fn new(b: &[u8]) -> (r: Self)
        ensures
            parser_view(r) == first_state(b@),
    {
        LinkParser {
            pos: 0,
            line: 1,
            line_start: 0,
            in_code_block: false,
            in_inline_math: false,
            in_display_math: false,
            on_heading_line: check_heading_line(b, 0),
        }
    }

    /// Whether the backticks at the scanner's position open a code fence.
    fn is_code_fence(&self, b: &[u8]) -> (r: bool)
        requires
            self.pos < b@.len(),
        ensures
            r == code_fence_at(b@, parser_view(*self)),
    {
        let mut k = self.line_start;
        while k < self.pos
            invariant
                self.pos < b@.len(),
                self.line_start <= k,
                k <= self.pos || k == self.line_start,
                forall|m: int| self.line_start <= m < k ==> #[trigger] blank_byte(b@[m]),
            decreases self.pos - k,
        {
            if !(b[k] == 32u8 || b[k] == 9u8) {
                assert(!blank_byte(b@[k as int]));
                return false;
            }
            k = k + 1;
        }
        let r = byte_run_exec(b, self.pos, 96u8);
        r - self.pos >= 3
    }

    /// Toggles code and passes the fence line.
    fn toggle_code_block(&mut self, b: &[u8])
        requires
            old(self).pos < b@.len(),
            old(self).line < usize::MAX,
        ensures
            parser_view(*final(self)) == toggle_fence(b@, parser_view(*old(self))),
    {
        self.in_code_block = !self.in_code_block;
        proof {
            lemma_next_lf(b@, self.pos as int);
        }
        let mut k = self.pos;
        while k < b.len() && b[k] != 10u8
            invariant
                k <= b@.len(),
                next_lf(b@, old(self).pos as int) == next_lf(b@, k as int),
            decreases b@.len() - k,
        {
            k = k + 1;
        }
        if k < b.len() {
            self.pos = k + 1;
            self.line = self.line + 1;
            self.line_start = k + 1;
        } else {
            self.pos = k;
        }
    }

    /// Passes a code span, or only its first backtick when it has no end.
    fn skip_code_span(&mut self, b: &[u8])
        requires
            old(self).pos < b@.len(),
            b@.len() <= usize::MAX / 2,
            old(self).line + b@.len() <= usize::MAX,
        ensures
            parser_view(*final(self)) == skip_span(b@, parser_view(*old(self))),
    {
        let start = self.pos;
        let r = byte_run_exec(b, start + 1, 96u8);
        let bt = r - start;
        let ghost l0 = self.line as int;
        let ghost s0 = self.line_start as int;
        let mut q = r;
        let mut found: usize = 0;
        let mut line = self.line;
        let mut ls = self.line_start;
        while q < b.len()
            invariant
                parser_view(*self) == parser_view(*old(self)),
                start == old(self).pos,
                l0 == old(self).line,
                s0 == old(self).line_start,
                r as int == byte_run(b@, start + 1, 96u8),
                bt == r - start,
                start < r <= q <= b@.len(),
                b@.len() <= usize::MAX / 2,
                l0 + b@.len() <= usize::MAX,
                l0 <= line <= l0 + (q - r),
                found < bt,
                span_scan(b@, r as int, bt as int, 0, l0, s0) == span_scan(
                    b@,
                    q as int,
                    bt as int,
                    found as int,
                    line as int,
                    ls as int,
                ),
            decreases b@.len() - q,
        {
            if b[q] == 96u8 {
                if found + 1 == bt {
                    assert(span_scan(b@, q as int, bt as int, found as int, line as int, ls as int) == (
                    true, q + 1, line as int, ls as int));
                    self.pos = q + 1;
                    self.line = line;
                    self.line_start = ls;
                    return;
                }
                found = found + 1;
            } else {
                found = 0;
                if b[q] == 10u8 {
                    line = line + 1;
                    ls = q + 1;
                }
            }
            q = q + 1;
        }
        assert(span_scan(b@, q as int, bt as int, found as int, line as int, ls as int) == (
        false, q as int, line as int, ls as int));
        self.pos = start + 1;
        self.line = line;
        self.line_start = ls;
    }

    /// Toggles math at a `$` or `$$` that is not escaped.
    fn handle_math_delimiter(&mut self, b: &[u8])
        requires
            old(self).pos < b@.len(),
            b@.len() <= usize::MAX / 2,
        ensures
            parser_view(*final(self)) == math_step(b@, parser_view(*old(self))),
    {
        let mut count: usize = 0;
        let mut k = self.pos;
        while k > 0 && b[k - 1] == 92u8
            invariant
                k <= old(self).pos < b@.len(),
                count == old(self).pos - k,
                backslashes_before(b@, old(self).pos as int) == count + backslashes_before(b@, k as int),
            decreases k,
        {
            count = count + 1;
            k = k - 1;
        }
        if count % 2 == 1 {
            self.pos = self.pos + 1;
        } else if self.pos + 1 < b.len() && b[self.pos + 1] == 36u8 {
            self.in_display_math = !self.in_display_math;
            self.pos = self.pos + 2;
        } else {
            self.in_inline_math = !self.in_inline_math;
            self.pos = self.pos + 1;
        }
    }

    fn reference(label: Vec<char>, line: usize, column: usize) -> (r: LinkType)
        ensures
            link_view(r) == LinkFound::Reference(label@, line as int, column as int),
    {
        LinkType::Reference { label: crate::text::string_of(label.as_slice()), line, column }
    }

    fn image(label: Vec<char>, line: usize, column: usize) -> (r: LinkType)
        ensures
            link_view(r) == LinkFound::Image(label@, line as int, column as int),
    {
        LinkType::Image { label: crate::text::string_of(label.as_slice()), line, column }
    }

    /// The link that starts with the `[` at the scanner's position.
    fn try_parse_link(&mut self, b: &[u8]) -> (r: Option<LinkType>)
        requires
            old(self).pos < b@.len(),
            old(self).line_start <= old(self).pos,
            b@.len() <= usize::MAX / 2,
        ensures
            (match r {
                Some(l) => Some(link_view(l)),
                None => None,
            }) == parse_link(b@, parser_view(*old(self))).0,
            parser_view(*final(self)) == parse_link(b@, parser_view(*old(self))).1,
    {
        let start = self.pos;
        let start_line = self.line;
        let start_col = self.pos - self.line_start + 1;
        proof {
            lemma_link_text(b@, start + 1, 0, seq![]);
        }
        if start > 0 && b[start - 1] == 94u8 {
            let (t, q) = parse_link_text(b, start + 1);
            self.pos = if t.is_some() && q < b.len() && b[q] == 93u8 { q + 1 } else { q };
            return None;
        }
        if start > 0 && b[start - 1] == 42u8 {
            let mut k = self.line_start;
            while k < start - 1 && (b[k] == 32u8 || b[k] == 9u8)
                invariant
                    start > 0,
                    old(self).line_start <= k,
                    k <= start - 1 || k == old(self).line_start,
                    start < b@.len(),
                    blanks_until(b@, old(self).line_start as int, start - 1) == blanks_until(
                        b@,
                        k as int,
                        start - 1,
                    ),
                decreases start - 1 - k,
            {
                k = k + 1;
            }
            if k == start - 1 {
                let (t, q) = parse_link_text(b, start + 1);
                if t.is_some() && q < b.len() && b[q] == 93u8 && q + 1 < b.len() && b[q + 1] == 58u8 {
                    self.pos = q + 1;
                    return None;
                }
                self.pos = start + 1;
                return None;
            }
        }
        let (t, q) = parse_link_text(b, start + 1);
        let text = match t {
            None => {
                self.pos = q;
                return None;
            },
            Some(text) => text,
        };
        let q1 = q + 1;
        proof {
            lemma_url_end(b@, q1 + 1, 1);
            lemma_reference_label(b@, q1 + 1, seq![]);
        }
        if q1 < b.len() && b[q1] == 40u8 {
            self.pos = skip_inline_url(b, q1 + 1);
            return Some(LinkType::Inline);
        }
        if q1 < b.len() && b[q1] == 91u8 {
            let (l, q2) = parse_reference_label(b, q1 + 1);
            let label = match l {
                Some(v) => v,
                None => Vec::new(),
            };
            self.pos = q2;
            if self.on_heading_line && looks_like_array_notation(text.as_slice(), label.as_slice()) {
                return None;
            }
            let final_label = if label.len() == 0 { text } else { label };
            return Some(LinkParser::reference(final_label, start_line, start_col));
        }
        self.pos = q1;
        if self.on_heading_line {
            return None;
        }
        let likely = if q1 >= b.len() {
            true
        } else {
            let c = b[q1];
            c == 32u8 || c == 9u8 || c == 10u8 || c == 13u8 || c == 46u8 || c == 44u8 || c == 59u8
                || c == 58u8 || c == 33u8 || c == 63u8
        };
        if likely {
            Some(LinkParser::reference(text, start_line, start_col))
        } else {
            None
        }
    }

    /// The image that starts with the `![` at the scanner's position.
    fn try_parse_image(&mut self, b: &[u8]) -> (r: Option<LinkType>)
        requires
            old(self).pos + 1 < b@.len(),
            old(self).line_start <= old(self).pos,
            b@.len() <= usize::MAX / 2,
        ensures
            (match r {
                Some(l) => Some(link_view(l)),
                None => None,
            }) == parse_image(b@, parser_view(*old(self))).0,
            parser_view(*final(self)) == parse_image(b@, parser_view(*old(self))).1,
    {
        let start_line = self.line;
        let start_col = self.pos - self.line_start + 1;
        proof {
            lemma_link_text(b@, self.pos + 2, 0, seq![]);
        }
        let (t, q) = parse_link_text(b, self.pos + 2);
        let alt = match t {
            None => {
                self.pos = q;
                return None;
            },
            Some(alt) => alt,
        };
        let q1 = q + 1;
        proof {
            lemma_url_end(b@, q1 + 1, 1);
            lemma_reference_label(b@, q1 + 1, seq![]);
        }
        if q1 < b.len() && b[q1] == 40u8 {
            self.pos = skip_inline_url(b, q1 + 1);
            return Some(LinkType::Inline);
        }
        if q1 < b.len() && b[q1] == 91u8 {
            let (l, q2) = parse_reference_label(b, q1 + 1);
            let label = match l {
                Some(v) => v,
                None => Vec::new(),
            };
            self.pos = q2;
            let final_label = if label.len() == 0 { alt } else { label };
            return Some(LinkParser::image(final_label, start_line, start_col));
        }
        self.pos = q1;
        Some(LinkParser::image(alt, start_line, start_col))
    }
}

/// The value of an optional report.
pub open spec fn found_seq(r: Option<LinkType>) -> Seq<LinkFound> {
    match r {
        Some(l) => seq![link_view(l)],
        None => seq![],
    }
}

impl LinkParser {
    /// One step of the scanner.
    fn step(&mut self, b: &[u8]) -> (r: Option<LinkType>)
        requires
            old(self).pos < b@.len(),
            b@.len() <= usize::MAX / 2,
            step_needs_column(b@, parser_view(*old(self))) ==> old(self).line_start <= old(self).pos,
            old(self).line + b@.len() <= usize::MAX,
        ensures
            (match r {
                Some(l) => Some(link_view(l)),
                None => None,
            }) == link_step(b@, parser_view(*old(self))).0,
            parser_view(*final(self)) == link_step(b@, parser_view(*old(self))).1,
    {
        proof {
            lemma_link_step(b@, parser_view(*self));
        }
        let c = b[self.pos];
        let text = !self.in_code_block && !self.in_inline_math && !self.in_display_math;
        if c == 96u8 {
            if self.is_code_fence(b) {
                self.toggle_code_block(b);
            } else if !self.in_code_block {
                self.skip_code_span(b);
            } else {
                self.pos = self.pos + 1;
            }
            None
        } else if c == 36u8 && !self.in_code_block {
            self.handle_math_delimiter(b);
            None
        } else if c == 91u8 && text {
            if self.pos + 1 < b.len() && b[self.pos + 1] == 91u8 {
                self.pos = skip_wiki_link(b, self.pos + 2);
                None
            } else {
                match self.try_parse_link(b) {
                    Some(l) => Some(l),
                    None => {
                        self.pos = self.pos + 1;
                        None
                    },
                }
            }
        } else if c == 33u8 && text {
            if self.pos + 2 < b.len() && b[self.pos + 1] == 91u8 && b[self.pos + 2] == 91u8 {
                self.pos = skip_wiki_link(b, self.pos + 3);
                None
            } else if self.pos + 1 < b.len() && b[self.pos + 1] == 91u8 {
                match self.try_parse_image(b) {
                    Some(l) => Some(l),
                    None => {
                        self.pos = self.pos + 1;
                        None
                    },
                }
            } else {
                self.pos = self.pos + 1;
                None
            }
        } else if c == 10u8 {
            self.line = self.line + 1;
            self.pos = self.pos + 1;
            self.line_start = self.pos;
            self.in_inline_math = false;
            self.on_heading_line = check_heading_line(b, self.pos);
            None
        } else {
            self.pos = self.pos + 1;
            None
        }
    }

    /// The scanner's next report, if any.
    pub fn next_link(&mut self, b: &[u8]) -> (r: Option<LinkType>)
        requires
            b@.len() <= usize::MAX / 2,
            parser_view(*old(self)).pos <= b@.len() + 2,
            links_safe(b@, parser_view(*old(self)), usize::MAX as int),
        ensures
            links_from(b@, parser_view(*old(self))) == found_seq(r) + links_from(
                b@,
                parser_view(*final(self)),
            ),
            links_safe(b@, parser_view(*final(self)), usize::MAX as int),
            parser_view(*final(self)).pos <= b@.len() + 2,
            r is None ==> final(self).pos >= b@.len(),
            r is Some ==> final(self).pos > old(self).pos,
            final(self).pos >= old(self).pos,
    {
        while self.pos < b.len()
            invariant
                b@.len() <= usize::MAX / 2,
                self.pos <= b@.len() + 2,
                self.pos >= old(self).pos,
                links_safe(b@, parser_view(*self), usize::MAX as int),
                links_from(b@, parser_view(*old(self))) == links_from(b@, parser_view(*self)),
            decreases b@.len() + 2 - self.pos,
        {
            let ghost before = parser_view(*self);
            proof {
                lemma_link_step(b@, before);
            }
            let r = self.step(b);
            match r {
                Some(l) => {
                    return Some(l);
                },
                None => {},
            }
        }
        None
    }
}

/// The labels that need no definition by default.
pub open spec fn default_ignored_labels() -> Seq<Seq<char>> {
    seq![
        " "@, "x"@, "-"@, ">"@, "<"@, "?"@, "!"@, "*"@, "\""@, "l"@, "b"@, "i"@, "s"@, "p"@, "c"@,
        "f"@, "k"@, "w"@, "u"@, "d"@, "/"@, "!note"@, "!tip"@, "!important"@, "!warning"@,
        "!caution"@,
    ]
}

/// The reference definition scanner's state.
pub struct RefDefParser {
    pub pos: usize,
}

impl RefDefParser {
    /// The label of a definition from `p` (after its opening bracket).
    fn parse_ref_label(b: &[u8], p: usize) -> (r: (Option<Vec<char>>, usize))
        requires
            p <= b@.len(),
        ensures
            (match r.0 {
                Some(v) => Some(v@),
                None => None,
            }) == definition_label(b@, p as int, seq![]).0,
            r.1 as int == definition_label(b@, p as int, seq![]).1,
    {
        let mut label: Vec<char> = Vec::new();
        let mut k = p;
        while k < b.len()
            invariant
                p <= k <= b@.len(),
                definition_label(b@, p as int, seq![]) == definition_label(b@, k as int, label@),
            decreases b@.len() - k,
        {
            let c = b[k];
            if c == 93u8 {
                if label.len() > 0 {
                    return (Some(label), k);
                }
                return (None, k);
            } else if c == 10u8 || c == 13u8 {
                return (None, k);
            }
            label.push(c as char);
            k = k + 1;
        }
        (None, k)
    }

    /// The definition that starts with the `[` at `start`.
    fn try_parse_definition(b: &[u8], start: usize) -> (r: (Option<Vec<char>>, usize))
        requires
            start < b@.len(),
            b@.len() <= usize::MAX / 2,
        ensures
            (match r.0 {
                Some(v) => Some(v@),
                None => None,
            }) == parse_definition(b@, start as int).0,
            r.1 as int == parse_definition(b@, start as int).1,
    {
        proof {
            lemma_definition_label(b@, start + 1, seq![]);
        }
        let (l, q) = RefDefParser::parse_ref_label(b, start + 1);
        let label = match l {
            None => {
                return (None, q);
            },
            Some(v) => v,
        };
        if !(q + 1 < b.len() && b[q + 1] == 58u8) {
            return (None, start);
        }
        if q + 2 < b.len() {
            let c = b[q + 2];
            if c != 32u8 && c != 9u8 && c != 10u8 && c != 13u8 {
                return (None, start);
            }
        }
        (Some(label), q + 2)
    }

    /// The next definition's label, if any.
    fn next_definition(&mut self, b: &[u8]) -> (r: Option<Vec<char>>)
        requires
            b@.len() <= usize::MAX / 2,
            old(self).pos <= b@.len() + 1,
        ensures
            definitions_from(b@, old(self).pos as int) == (match r {
                Some(v) => seq![v@],
                None => Seq::<Seq<char>>::empty(),
            }) + definitions_from(b@, final(self).pos as int),
            final(self).pos <= b@.len() + 1,
            r is None ==> final(self).pos >= b@.len(),
            r is Some ==> final(self).pos > old(self).pos,
            final(self).pos >= old(self).pos,
            final(self).pos >= old(self).pos,
    {
        while self.pos < b.len()
            invariant
                b@.len() <= usize::MAX / 2,
                self.pos <= b@.len() + 1,
                self.pos >= old(self).pos,
                definitions_from(b@, old(self).pos as int) == definitions_from(b@, self.pos as int),
            decreases b@.len() + 1 - self.pos,
        {
            let p = skip_blank_bytes(b, self.pos);
            if p >= b.len() {
                self.pos = p;
                return None;
            }
            if b[p] == 91u8 {
                proof {
                    lemma_definition_label(b@, p + 1, seq![]);
                }
                let (l, q) = RefDefParser::try_parse_definition(b, p);
                match l {
                    Some(v) => {
                        self.pos = q;
                        return Some(v);
                    },
                    None => {
                        self.pos = q + 1;
                    },
                }
            } else {
                proof {
                    lemma_next_lf(b@, p as int);
                }
                let mut e = p;
                while e < b.len() && b[e] != 10u8
                    invariant
                        p <= e <= b@.len(),
                        next_lf(b@, p as int) == next_lf(b@, e as int),
                    decreases b@.len() - e,
                {
                    e = e + 1;
                }
                self.pos = if e < b.len() { e + 1 } else { e };
            }
        }
        None
    }
}

/// Whether `v` holds `x`.
fn holds_string(v: &Vec<String>, x: &[char]) -> (r: bool)
    ensures
        r == holds_label(string_views(v@), x@),
{
    let ghost sv = string_views(v@);
    let mut k: usize = 0;
    while k < v.len()
        invariant
            sv == string_views(v@),
            k <= v@.len(),
            forall|m: int| 0 <= m < k ==> sv[m] != x@,
        decreases v@.len() - k,
    {
        let c = crate::text::chars_of(v[k].as_str());
        if crate::text::same_chars(c.as_slice(), x) {
            assert(sv[k as int] == x@);
            return true;
        }
        k = k + 1;
    }
    false
}

impl MD052 {
    /// The rule with the default ignored labels: task list marks, extended
    /// checkbox states and the admonition labels.
    pub fn new() -> (r: Self)
        ensures
            string_views(r.ignored_labels@) == default_ignored_labels(),
            !r.shortcut_syntax,
    {
        let mut v: Vec<String> = Vec::new();
        v.push(String::from_str(" "));
        v.push(String::from_str("x"));
        v.push(String::from_str("-"));
        v.push(String::from_str(">"));
        v.push(String::from_str("<"));
        v.push(String::from_str("?"));
        v.push(String::from_str("!"));
        v.push(String::from_str("*"));
        v.push(String::from_str("\""));
        v.push(String::from_str("l"));
        v.push(String::from_str("b"));
        v.push(String::from_str("i"));
        v.push(String::from_str("s"));
        v.push(String::from_str("p"));
        v.push(String::from_str("c"));
        v.push(String::from_str("f"));
        v.push(String::from_str("k"));
        v.push(String::from_str("w"));
        v.push(String::from_str("u"));
        v.push(String::from_str("d"));
        v.push(String::from_str("/"));
        v.push(String::from_str("!note"));
        v.push(String::from_str("!tip"));
        v.push(String::from_str("!important"));
        v.push(String::from_str("!warning"));
        v.push(String::from_str("!caution"));
        assert(string_views(v@) =~= default_ignored_labels());
        MD052 { ignored_labels: v, shortcut_syntax: false }
    }

    /// The rule with other ignored labels.
    pub fn ignored_labels(self, labels: Vec<String>) -> (r: Self)
        ensures
            r.ignored_labels@ == labels@,
            r.shortcut_syntax == self.shortcut_syntax,
    {
        MD052 { ignored_labels: labels, shortcut_syntax: self.shortcut_syntax }
    }

    /// The rule with shortcut references included or not.
    pub fn shortcut_syntax(self, enabled: bool) -> (r: Self)
        ensures
            r.ignored_labels@ == self.ignored_labels@,
            r.shortcut_syntax == enabled,
    {
        MD052 { ignored_labels: self.ignored_labels, shortcut_syntax: enabled }
    }

    /// The lowercased labels of the text's reference definitions.
    fn collect_defined_labels(&self, b: &[u8]) -> (r: Vec<String>)
        requires
            b@.len() <= usize::MAX / 2,
        ensures
            string_views(r@) == definitions_from(b@, 0).map_values(|l: Seq<char>| lowercase(l)),
    {
        let mut parser = RefDefParser { pos: 0 };
        let mut out: Vec<String> = Vec::new();
        let ghost mut done: Seq<Seq<char>> = seq![];
        let mut more = true;
        while more
            invariant
                b@.len() <= usize::MAX / 2,
                parser.pos <= b@.len() + 1,
                done + definitions_from(b@, parser.pos as int) == definitions_from(b@, 0),
                string_views(out@) == done.map_values(|l: Seq<char>| lowercase(l)),
                !more ==> parser.pos >= b@.len(),
            decreases b@.len() + 1 - parser.pos + (if more { 1int } else { 0int }),
        {
            let ghost before = parser.pos;
            match parser.next_definition(b) {
                Some(l) => {
                    let ls = crate::text::string_of(l.as_slice());
                    let lower = crate::text::to_lowercase(ls.as_str());
                    assert(lower@ == lowercase(l@));
                    let ghost prev = out@;
                    let ghost done_old = done;
                    assert(string_views(prev) == done_old.map_values(|l: Seq<char>| lowercase(l)));
                    assert(prev.len() == done_old.len()) by {
                        assert(string_views(prev).len() == prev.len());
                    }
                    proof {
                        done = done.push(l@);
                    }
                    out.push(lower);
                    assert(out@ == prev.push(lower));
                    assert forall|k: int| 0 <= k < out@.len() implies #[trigger] string_views(out@)[k]
                        == done.map_values(|l: Seq<char>| lowercase(l))[k] by {
                        if k < prev.len() {
                            assert(out@[k] == prev[k]);
                            assert(string_views(prev)[k] == prev[k]@);
                            assert(done[k] == done_old[k]);
                            assert(done_old.map_values(|l: Seq<char>| lowercase(l))[k] == lowercase(done_old[k]));
                        }
                    }
                    assert(string_views(out@) =~= done.map_values(|l: Seq<char>| lowercase(l)));
                },
                None => {
                    more = false;
                },
            }
        }
        assert(definitions_from(b@, parser.pos as int) == Seq::<Seq<char>>::empty());
        assert(done == definitions_from(b@, 0));
        out
    }
}

fn report_link(l: &LinkType, defined: &Vec<String>, ignored: &Vec<String>) -> (r: Vec<Violation>)
    ensures
        r.deep_view() == report_one(link_view(*l), string_views(defined@), string_views(ignored@)),
{
    let mut out: Vec<Violation> = Vec::new();
    match l {
        LinkType::Reference { label, line, column } => {
            let lower = crate::text::chars_of(crate::text::to_lowercase(label.as_str()).as_str());
            if !holds_string(ignored, lower.as_slice()) && !holds_string(defined, lower.as_slice()) {
                let mut message = String::from_str("Reference link uses undefined label '");
                message.append(label.as_str());
                message.append("'");
                let v = new_violation("MD052", message, *line, *column, Severity::Error, None);
                out.push(v);
                assert(out.deep_view() =~= seq![v.deep_view()]);
            } else {
                assert(out.deep_view() =~= Seq::<ViolationModel>::empty());
            }
        },
        LinkType::Image { label, line, column } => {
            let lower = crate::text::chars_of(crate::text::to_lowercase(label.as_str()).as_str());
            if !holds_string(ignored, lower.as_slice()) && !holds_string(defined, lower.as_slice()) {
                let mut message = String::from_str("Reference image uses undefined label '");
                message.append(label.as_str());
                message.append("'");
                let v = new_violation("MD052", message, *line, *column, Severity::Error, None);
                out.push(v);
                assert(out.deep_view() =~= seq![v.deep_view()]);
            } else {
                assert(out.deep_view() =~= Seq::<ViolationModel>::empty());
            }
        },
        LinkType::Inline => {
            assert(out.deep_view() =~= Seq::<ViolationModel>::empty());
        },
    }
    out
}

impl MD052 {
    /// Whether the rule can check a document: see [`md052_input_ok`].
    pub fn input_ok(&self, document: &Document) -> (r: bool)
        ensures
            r == md052_input_ok(encode_utf8(document.text())),
    {
        let bytes = document.content().as_str().as_bytes_vec();
        let b = bytes.as_slice();
        if b.len() > usize::MAX / 2 {
            return false;
        }
        let mut parser = LinkParser::new(b);
        while parser.pos < b.len()
            invariant
                b@.len() <= usize::MAX / 2,
                b@ == encode_utf8(document.text()),
                parser.pos <= b@.len() + 2,
                md052_input_ok(b@) == links_safe(b@, parser_view(parser), usize::MAX as int),
            decreases b@.len() + 2 - parser.pos,
        {
            let ghost cur = parser_view(parser);
            proof {
                lemma_link_step(b@, cur);
            }
            let p = parser.pos;
            let c = b[p];
            let text = !parser.in_code_block && !parser.in_inline_math && !parser.in_display_math;
            let wiki1 = p + 1 < b.len() && b[p + 1] == 91u8;
            let wiki2 = p + 2 < b.len() && b[p + 2] == 91u8;
            let needs = (c == 91u8 && text && !wiki1) || (c == 33u8 && text && wiki1 && !wiki2);
            assert(needs == step_needs_column(b@, cur));
            if needs && parser.line_start > p {
                return false;
            }
            if parser.line > usize::MAX - b.len() {
                return false;
            }
            parser.step(b);
        }
        true
    }

    /// The rule's identifier.
    pub fn id(&self) -> (r: &'static str)
        ensures
            r@ == "MD052"@,
    {
        "MD052"
    }

    /// The rule's name.
    pub fn name(&self) -> (r: &'static str)
        ensures
            r@ == "reference-links-images"@,
    {
        "reference-links-images"
    }

    /// What the rule checks.
    pub fn description(&self) -> (r: &'static str)
        ensures
            r@ == "Reference links and images should use a label that is defined"@,
    {
        "Reference links and images should use a label that is defined"
    }

    /// The violations for the reference links and images of the text.
    fn check_reference_labels(&self, b: &[u8]) -> (r: Vec<Violation>)
        requires
            md052_input_ok(b@),
        ensures
            r.deep_view() == md052_violations(b@, string_views(self.ignored_labels@)),
    {
        let ghost ignored = string_views(self.ignored_labels@);
        let defined = self.collect_defined_labels(b);
        let ghost dv = string_views(defined@);
        let mut parser = LinkParser::new(b);
        let mut out: Vec<Violation> = Vec::new();
        let mut more = true;
        while more
            invariant
                b@.len() <= usize::MAX / 2,
                parser.pos <= b@.len() + 2,
                links_safe(b@, parser_view(parser), usize::MAX as int),
                dv == string_views(defined@),
                dv == definitions_from(b@, 0).map_values(|l: Seq<char>| lowercase(l)),
                ignored == string_views(self.ignored_labels@),
                out.deep_view() + md052_reports(links_from(b@, parser_view(parser)), dv, ignored)
                    == md052_violations(b@, ignored),
                !more ==> parser.pos >= b@.len(),
            decreases b@.len() + 2 - parser.pos + (if more { 1int } else { 0int }),
        {
            let ghost before = parser_view(parser);
            let ghost rest_before = links_from(b@, before);
            match parser.next_link(b) {
                Some(l) => {
                    let ghost rest = links_from(b@, parser_view(parser));
                    assert(rest_before == seq![link_view(l)] + rest);
                    assert(rest_before[0] == link_view(l));
                    assert(rest_before.subrange(1, rest_before.len() as int) =~= rest);
                    let v = report_link(&l, &defined, &self.ignored_labels);
                    let ghost prev = out.deep_view();
                    crate::lines::push_vec(&mut out, v);
                    assert(md052_reports(rest_before, dv, ignored) == report_one(link_view(l), dv, ignored)
                        + md052_reports(rest, dv, ignored));
                    assert(prev + md052_reports(rest_before, dv, ignored) == out.deep_view()
                        + md052_reports(rest, dv, ignored));
                },
                None => {
                    more = false;
                },
            }
        }
        assert(links_from(b@, parser_view(parser)) == Seq::<LinkFound>::empty());
        out
    }

    /// Checks a document.
    pub fn check(&self, document: &Document) -> (r: Vec<Violation>)
        requires
            md052_input_ok(encode_utf8(document.text())),
        ensures
            r.deep_view() == md052_violations(encode_utf8(document.text()), string_views(self.ignored_labels@)),
    {
        let bytes = document.content().as_str().as_bytes_vec();
        self.check_reference_labels(bytes.as_slice())
    }
}

impl MD052 {
    /// The rule configured by a TOML table: the strings of the array
    /// `ignored_labels` replace the default labels, and the boolean
    /// `shortcut_syntax` is taken over; anything else keeps the default.
    pub fn from_config(config: &toml::Value) -> (r: Self)
        ensures
            string_views(r.ignored_labels@) == match as_str_array(toml_get(*config, "ignored_labels"@)) {
                Some(v) => v,
                None => default_ignored_labels(),
            },
            r.shortcut_syntax == match as_bool(toml_get(*config, "shortcut_syntax"@)) {
                Some(b) => b,
                None => false,
            },
    {
        let mut rule = MD052::new();
        match entry_strings(config_entry(config, "ignored_labels")) {
            Some(v) => {
                rule.ignored_labels = v;
            },
            None => {},
        }
        match entry_bool(&config_entry(config, "shortcut_syntax")) {
            Some(b) => {
                rule.shortcut_syntax = b;
            },
            None => {},
        }
        assert(string_views(rule.ignored_labels@) =~= match as_str_array(toml_get(*config, "ignored_labels"@)) {
            Some(v) => v,
            None => default_ignored_labels(),
        });
        rule
    }
}

impl Default for MD052 {
    fn default() -> (r: Self)
        ensures
            string_views(r.ignored_labels@) == default_ignored_labels(),
            !r.shortcut_syntax,
    {
        MD052::new()
    }
}

} // verus!
