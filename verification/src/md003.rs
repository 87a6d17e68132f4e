//! MD003: one heading style (ATX, closed ATX or setext) throughout a document.
use vstd::prelude::*;
use crate::config::{as_str, config_entry, entry_str, toml_get};
use vstd::string::StringExecFns;
use crate::document::{Document, MdNode, NodeKind};
use crate::md002::{find_first_heading, first_heading_from, hashes};
use crate::text::{
    byte_len, byte_len_prefix, chars_of, equals_lit, in_class, is_ws, lemma_byte_len_ge, lemma_run_back, lemma_run_fwd,
    push_all, run_back, run_fwd, scan_back, scan_fwd, skip_ws_from, slice_chars, string_of,
    trim_chars, trim_end_at, trimmed, CharClass,
};
use crate::violation::{
    fix_model, new_fix, new_violation, violation_model, FixModel, Severity, Violation,
    ViolationModel,
};

verus! {

/// The configuration of MD003.
#[derive(Debug, Clone)]
pub struct Md003Config {
    /// `consistent`, `atx`, `atx_closed`, `setext` or `setext_with_atx`.
    pub style: String,
}

impl Default for Md003Config {
    fn default() -> (r: Self)
        ensures
            r.style@ == "consistent"@,
    {
        Md003Config { style: String::from_str("consistent") }
    }
}

/// Rule that flags headings of another style than the document's.
pub struct MD003 {
    /// The rule's configuration.
    pub config: Md003Config,
}

/// How a heading is written.
#[derive(Debug, Clone, Copy, PartialEq, Eq, Structural)]
pub enum HeadingStyle {
    /// `# Heading`.
    Atx,
    /// `# Heading #`.
    AtxClosed,
    /// A text line underlined by `===` or `---`.
    Setext,
    /// Setext for levels 1 and 2, ATX for the others.
    SetextWithAtx,
}

/// The name of a style.
pub open spec fn style_text(s: HeadingStyle) -> Seq<char> {
    match s {
        HeadingStyle::Atx => "atx"@,
        HeadingStyle::AtxClosed => "atx_closed"@,
        HeadingStyle::Setext => "setext"@,
        HeadingStyle::SetextWithAtx => "setext_with_atx"@,
    }
}

/// `t` without the hashes it starts with and those it then ends with.
pub open spec fn strip_hashes(t: Seq<char>) -> Seq<char> {
    let u = t.subrange(run_fwd(t, 0, CharClass::Exactly('#')), t.len() as int);
    u.subrange(0, run_back(u, u.len() as int, CharClass::Exactly('#')))
}

/// `t` is a run of `=` or of `-`.
pub open spec fn setext_underline(t: Seq<char>) -> bool {
    t.len() > 0 && (t[0] == '=' || t[0] == '-') && run_fwd(t, 0, CharClass::Exactly(t[0])) == t.len()
}

/// The index of line `ln` (1-based; 0 counts as 1).
pub open spec fn line_index(ln: usize) -> int {
    if ln == 0 { 0 } else { ln - 1 }
}

/// The style of the heading on line `ln`, read from the text: a line that
/// starts with `#` is ATX, closed when it also ends with `#` around other
/// text; a line followed by an underline is setext; anything else is ATX.
pub open spec fn heading_style(lines: Seq<Seq<char>>, ln: usize) -> HeadingStyle {
    let idx = line_index(ln);
    if idx >= lines.len() {
        HeadingStyle::Atx
    } else {
        let t = trimmed(lines[idx]);
        if t.len() > 0 && t[0] == '#' {
            if t.len() > 1 && t.last() == '#' && trimmed(strip_hashes(t)).len() > 0 {
                HeadingStyle::AtxClosed
            } else {
                HeadingStyle::Atx
            }
        } else if idx + 1 < lines.len() && setext_underline(trimmed(lines[idx + 1])) {
            HeadingStyle::Setext
        } else {
            HeadingStyle::Atx
        }
    }
}

/// The text of the heading on line `ln` that has style `style`.
pub open spec fn heading_text(lines: Seq<Seq<char>>, ln: usize, style: HeadingStyle) -> Seq<char> {
    let idx = line_index(ln);
    if idx >= lines.len() {
        seq![]
    } else {
        let t = trimmed(lines[idx]);
        match style {
            HeadingStyle::Atx => trimmed(t.subrange(run_fwd(t, 0, CharClass::Exactly('#')), t.len() as int)),
            HeadingStyle::AtxClosed => trimmed(strip_hashes(t)),
            _ => t,
        }
    }
}

/// The style that the configuration asks for, given the first heading's style.
pub open spec fn expected_style(config: Seq<char>, first: HeadingStyle) -> HeadingStyle {
    if config == "atx"@ {
        HeadingStyle::Atx
    } else if config == "atx_closed"@ {
        HeadingStyle::AtxClosed
    } else if config == "setext"@ {
        HeadingStyle::Setext
    } else if config == "setext_with_atx"@ {
        HeadingStyle::SetextWithAtx
    } else {
        first
    }
}

/// A heading of style `actual` and level `level` meets the expected style.
pub open spec fn valid_style(actual: HeadingStyle, expected: HeadingStyle, level: u8) -> bool {
    match expected {
        HeadingStyle::SetextWithAtx => if level <= 2 {
            actual == HeadingStyle::Setext
        } else {
            actual == HeadingStyle::Atx
        },
        _ => actual == expected,
    }
}

/// `n` copies of `c`.
pub open spec fn repeat_char(c: char, n: nat) -> Seq<char> {
    Seq::new(n, |k: int| c)
}

/// The heading `text` of level `level` written in style `expected`.
pub open spec fn heading_in_style(text: Seq<char>, level: u8, expected: HeadingStyle) -> Seq<char> {
    let h = hashes(level as nat);
    match expected {
        HeadingStyle::Atx => h + seq![' '] + text + seq!['\n'],
        HeadingStyle::AtxClosed => h + seq![' '] + text + seq![' '] + h + seq!['\n'],
        _ => if level <= 2 {
            text + seq!['\n'] + repeat_char(if level == 1 { '=' } else { '-' }, byte_len(text))
                + seq!['\n']
        } else {
            h + seq![' '] + text + seq!['\n']
        },
    }
}

/// Law: the fix for the ATX style writes the heading's level in hashes, then
/// whitespace, then its text and a line feed, so that the line it writes,
/// read back, is an ATX heading of that level with that text.
pub proof fn md003_atx_fix_round_trip(text: Seq<char>, level: u8)
    requires
        1 <= level <= 6,
        text.len() > 0,
        !is_ws(text[0]),
        !is_ws(text.last()),
        text.last() != '#',
    ensures
        ({
            let r = heading_in_style(text, level, HeadingStyle::Atx);
            let l = r.drop_last();
            &&& r.len() > 0 && r.last() == '\n'
            &&& run_fwd(l, 0, CharClass::Exactly('#')) == level
            &&& level < l.len() && is_ws(l[level as int])
            &&& heading_style(seq![l], 1) == HeadingStyle::Atx
            &&& heading_text(seq![l], 1, HeadingStyle::Atx) == text
        }),
{
    let n = level as int;
    let r = heading_in_style(text, level, HeadingStyle::Atx);
    let l = r.drop_last();
    assert(l =~= hashes(level as nat) + seq![' '] + text);
    assert(l[n] == ' ');
    assert(forall|k: int| 0 <= k < n ==> l[k] == '#');
    assert(forall|j: int| 0 <= j < text.len() ==> l[n + 1 + j] == text[j]);
    lemma_run_fwd(l, 0, CharClass::Exactly('#'));
    let h = run_fwd(l, 0, CharClass::Exactly('#'));
    if h < n {
        assert(l[h] == '#');
    }
    if h > n {
        assert(in_class(l[n], CharClass::Exactly('#')));
    }
    assert(h == n);
    assert(l.last() == text.last());
    assert(skip_ws_from(l, 0) == 0);
    assert(trim_end_at(l, l.len() as int) == l.len());
    assert(trimmed(l) =~= l);
    assert(seq![l][0] == l);
    let x = l.subrange(n, l.len() as int);
    assert(x =~= seq![' '] + text);
    assert(x[1] == text[0]);
    assert(skip_ws_from(x, 1) == 1);
    assert(skip_ws_from(x, 0) == 1);
    assert(x.last() == text.last());
    assert(trim_end_at(x, x.len() as int) == x.len());
    assert(trimmed(x) =~= text);
}

/// Law: the fix for the closed ATX style writes the heading's level in
/// hashes, whitespace, its text, whitespace and the hashes again, then a line
/// feed, so that the line it writes, read back, is a closed ATX heading of
/// that level with that text.
#[verifier::rlimit(60)]
pub proof fn md003_atx_closed_fix_round_trip(text: Seq<char>, level: u8)
    requires
        1 <= level <= 6,
        text.len() > 0,
        !is_ws(text[0]),
        !is_ws(text.last()),
    ensures
        ({
            let r = heading_in_style(text, level, HeadingStyle::AtxClosed);
            let l = r.drop_last();
            &&& r.len() > 0 && r.last() == '\n'
            &&& run_fwd(l, 0, CharClass::Exactly('#')) == level
            &&& level < l.len() && is_ws(l[level as int])
            &&& run_back(l, l.len() as int, CharClass::Exactly('#')) == l.len() - level
            &&& is_ws(l[l.len() - level - 1])
            &&& heading_style(seq![l], 1) == HeadingStyle::AtxClosed
            &&& heading_text(seq![l], 1, HeadingStyle::AtxClosed) == text
        }),
{
    let n = level as int;
    let m = text.len() as int;
    let r = heading_in_style(text, level, HeadingStyle::AtxClosed);
    let l = r.drop_last();
    assert(l =~= hashes(level as nat) + seq![' '] + text + seq![' '] + hashes(level as nat));
    assert(l.len() == 2 * n + 2 + m);
    assert(l[n] == ' ');
    assert(l[n + 1 + m] == ' ');
    assert(forall|k: int| 0 <= k < n ==> l[k] == '#');
    assert(forall|k: int| n + 2 + m <= k < l.len() ==> l[k] == '#');
    assert(forall|j: int| 0 <= j < m ==> l[n + 1 + j] == text[j]);
    lemma_run_fwd(l, 0, CharClass::Exactly('#'));
    let h = run_fwd(l, 0, CharClass::Exactly('#'));
    if h < n {
        assert(l[h] == '#');
    }
    if h > n {
        assert(in_class(l[n], CharClass::Exactly('#')));
    }
    assert(h == n);
    lemma_run_back(l, l.len() as int, CharClass::Exactly('#'));
    let b = run_back(l, l.len() as int, CharClass::Exactly('#'));
    if b > n + 2 + m {
        assert(l[b - 1] == '#');
    }
    if b < n + 2 + m {
        assert(in_class(l[n + 1 + m], CharClass::Exactly('#')));
    }
    assert(b == n + 2 + m);
    assert(l.last() == '#');
    assert(skip_ws_from(l, 0) == 0);
    assert(trim_end_at(l, l.len() as int) == l.len());
    assert(trimmed(l) =~= l);
    assert(seq![l][0] == l);
    let u = l.subrange(n, l.len() as int);
    assert(u =~= seq![' '] + text + seq![' '] + hashes(level as nat));
    lemma_run_back(u, u.len() as int, CharClass::Exactly('#'));
    let c = run_back(u, u.len() as int, CharClass::Exactly('#'));
    assert(forall|k: int| m + 2 <= k < u.len() ==> u[k] == '#');
    if c > m + 2 {
        assert(u[c - 1] == '#');
    }
    if c < m + 2 {
        assert(in_class(u[m + 1], CharClass::Exactly('#')));
    }
    assert(c == m + 2);
    let x = u.subrange(0, c);
    assert(x =~= seq![' '] + text + seq![' ']);
    assert(strip_hashes(l) == x);
    assert(x[1] == text[0]);
    assert(skip_ws_from(x, 1) == 1);
    assert(skip_ws_from(x, 0) == 1);
    assert(x[m] == text.last());
    assert(trim_end_at(x, m + 1) == m + 1);
    assert(trim_end_at(x, x.len() as int) == m + 1);
    assert(trimmed(x) =~= text);
}

/// Law: the fix for the setext style writes a heading of level one or two as
/// its text on one line and, on the next, a run of `=` (level one) or `-`
/// (level two) as long as the text takes bytes, so that the two lines, read
/// back, are a setext heading with that text; deeper headings it writes as
/// ATX headings.
pub proof fn md003_setext_fix_round_trip(text: Seq<char>, level: u8)
    requires
        1 <= level <= 6,
        text.len() > 0,
        !is_ws(text[0]),
        !is_ws(text.last()),
        text[0] != '#',
    ensures
        level > 2 ==> heading_in_style(text, level, HeadingStyle::Setext) == heading_in_style(
            text,
            level,
            HeadingStyle::Atx,
        ),
        level <= 2 ==> ({
            let r = heading_in_style(text, level, HeadingStyle::Setext);
            let n = text.len() as int;
            let l1 = r.take(n);
            let l2 = r.subrange(n + 1, r.len() - 1);
            &&& r.len() == n + 2 + byte_len(text)
            &&& l1 == text
            &&& r[n] == '\n'
            &&& r.last() == '\n'
            &&& forall|k: int| 0 <= k < l2.len() ==> l2[k] == (if level == 1 { '=' } else { '-' })
            &&& heading_style(seq![l1, l2], 1) == HeadingStyle::Setext
            &&& heading_text(seq![l1, l2], 1, HeadingStyle::Setext) == text
        }),
{
    if level <= 2 {
        let c = if level == 1 { '=' } else { '-' };
        let n = text.len() as int;
        let u = repeat_char(c, byte_len(text));
        let r = heading_in_style(text, level, HeadingStyle::Setext);
        assert(r =~= text + seq!['\n'] + u + seq!['\n']);
        assert(r.take(n) =~= text);
        assert(r.subrange(n + 1, r.len() - 1) =~= u);
        lemma_byte_len_ge(text);
        assert(u.len() > 0);
        assert(skip_ws_from(text, 0) == 0);
        assert(trim_end_at(text, n) == n);
        assert(trimmed(text) =~= text);
        assert(!is_ws(u[0]));
        assert(skip_ws_from(u, 0) == 0);
        assert(!is_ws(u.last()));
        assert(trim_end_at(u, u.len() as int) == u.len());
        assert(trimmed(u) =~= u);
        lemma_run_fwd(u, 0, CharClass::Exactly(c));
        let e = run_fwd(u, 0, CharClass::Exactly(c));
        if e < u.len() {
            assert(u[e] == c);
        }
        assert(setext_underline(u));
        let ls = seq![text, u];
        assert(ls[0] == text && ls[1] == u);
    }
}

/// The fix that rewrites the heading on line `ln` in style `expected`.
pub open spec fn md003_fix(
    lines: Seq<Seq<char>>,
    ln: usize,
    level: u8,
    style: HeadingStyle,
    expected: HeadingStyle,
) -> FixModel {
    let idx = line_index(ln);
    let two = style == HeadingStyle::Setext && idx + 1 < lines.len();
    let end = if two { ln + 1 } else { ln as int };
    fix_model(
        "Convert to "@ + style_text(expected) + " style"@,
        Some(heading_in_style(heading_text(lines, ln, style), level, expected)),
        ln,
        1,
        end as usize,
        (if end > ln && end <= lines.len() {
            byte_len(lines[end - 1]) + 1
        } else {
            byte_len(lines[idx]) + 1
        }) as usize,
    )
}

/// The violations for nodes `i..`, when `expected` is the style to use.
pub open spec fn md003_from(lines: Seq<Seq<char>>, nodes: Seq<MdNode>, i: int, expected: HeadingStyle) -> Seq<
    ViolationModel,
>
    decreases nodes.len() - i,
{
    if i < 0 || i >= nodes.len() {
        seq![]
    } else {
        match nodes[i].kind {
            NodeKind::Heading { level, .. } => {
                let ln = nodes[i].start_line;
                let style = heading_style(lines, ln);
                (if valid_style(style, expected, level) || line_index(ln) >= lines.len() {
                    seq![]
                } else {
                    seq![
                        violation_model(
                            "MD003"@,
                            "Expected '"@ + style_text(expected) + "' style heading but found '"@
                                + style_text(style) + "' style"@,
                            ln,
                            nodes[i].start_column,
                            Severity::Error,
                            Some(md003_fix(lines, ln, level, style, expected)),
                        ),
                    ]
                }) + md003_from(lines, nodes, i + 1, expected)
            },
            _ => md003_from(lines, nodes, i + 1, expected),
        }
    }
}

/// The violations MD003 reports. A heading whose line lies past the end of
/// the text is not reported.
pub open spec fn md003_violations(lines: Seq<Seq<char>>, nodes: Seq<MdNode>, config: Seq<char>) -> Seq<
    ViolationModel,
> {
    let f = first_heading_from(nodes, 0);
    if f >= nodes.len() {
        seq![]
    } else {
        md003_from(lines, nodes, 0, expected_style(config, heading_style(lines, nodes[f].start_line)))
    }
}

proof fn lemma_first_heading(nodes: Seq<MdNode>, i: int)
    requires
        0 <= i <= nodes.len(),
    ensures
        first_heading_from(nodes, i) >= i,
        first_heading_from(nodes, i) < nodes.len() ==> nodes[first_heading_from(nodes, i)].kind is Heading,
    decreases nodes.len() - i,
{
    if i < nodes.len() && !(nodes[i].kind is Heading) {
        lemma_first_heading(nodes, i + 1);
    }
}

/// Every heading of the nodes is written in style `s`.
pub open spec fn headings_all(lines: Seq<Seq<char>>, nodes: Seq<MdNode>, s: HeadingStyle) -> bool {
    forall|k: int|
        0 <= k < nodes.len() && (#[trigger] nodes[k]).kind is Heading ==> heading_style(
            lines,
            nodes[k].start_line,
        ) == s
}

proof fn lemma_uniform_from(lines: Seq<Seq<char>>, nodes: Seq<MdNode>, i: int, s: HeadingStyle)
    requires
        0 <= i,
        headings_all(lines, nodes, s),
    ensures
        md003_from(lines, nodes, i, s) == Seq::<ViolationModel>::empty(),
    decreases nodes.len() - i,
{
    if i < nodes.len() {
        if nodes[i].kind is Heading {
            assert(heading_style(lines, nodes[i].start_line) == s);
            assert(s != HeadingStyle::SetextWithAtx);
        }
        lemma_uniform_from(lines, nodes, i + 1, s);
    }
}

/// Law: a document whose headings are all written in one style draws no
/// report, in the consistent mode or when that style is the one configured.
pub proof fn md003_uniform_headings_pass(lines: Seq<Seq<char>>, nodes: Seq<MdNode>, config: Seq<char>, s: HeadingStyle)
    requires
        headings_all(lines, nodes, s),
        config == "consistent"@ || config == style_text(s),
    ensures
        md003_violations(lines, nodes, config) == Seq::<ViolationModel>::empty(),
{
    let f = first_heading_from(nodes, 0);
    lemma_first_heading(nodes, 0);
    if f < nodes.len() {
        reveal_strlit("consistent");
        reveal_strlit("atx");
        reveal_strlit("atx_closed");
        reveal_strlit("setext");
        reveal_strlit("setext_with_atx");
        assert(heading_style(lines, nodes[f].start_line) == s);
        assert("consistent"@.len() == 10);
        assert("atx"@.len() == 3);
        assert("atx_closed"@.len() == 10);
        assert("setext"@.len() == 6);
        assert("setext_with_atx"@.len() == 15);
        assert("consistent"@[0] != "atx_closed"@[0]);
        assert("atx_closed"@ != "atx"@);
        assert("setext_with_atx"@ != "setext"@);
        assert("setext_with_atx"@ != "atx"@);
        assert("setext"@ != "atx"@);
        assert("setext"@ != "atx_closed"@);
        assert("setext_with_atx"@ != "atx_closed"@);
        assert(expected_style(config, s) == s);
        lemma_uniform_from(lines, nodes, 0, s);
    }
}

fn style_str(s: HeadingStyle) -> (r: &'static str)
    ensures
        r@ == style_text(s),
{
    match s {
        HeadingStyle::Atx => "atx",
        HeadingStyle::AtxClosed => "atx_closed",
        HeadingStyle::Setext => "setext",
        HeadingStyle::SetextWithAtx => "setext_with_atx",
    }
}

fn strip_hashes_chars(t: &[char]) -> (r: Vec<char>)
    ensures
        r@ == strip_hashes(t@),
        r@.len() <= t@.len(),
{
    proof {
        lemma_run_fwd(t@, 0, CharClass::Exactly('#'));
    }
    let a = scan_fwd(t, 0, CharClass::Exactly('#'));
    let u = slice_chars(t, a, t.len());
    proof {
        lemma_run_back(u@, u@.len() as int, CharClass::Exactly('#'));
    }
    let b = scan_back(u.as_slice(), u.len(), CharClass::Exactly('#'));
    slice_chars(u.as_slice(), 0, b)
}

fn repeat(c: char, n: usize) -> (r: Vec<char>)
    ensures
        r@ == repeat_char(c, n as nat),
{
    let mut r: Vec<char> = Vec::new();
    for k in 0..n
        invariant
            r@ == repeat_char(c, k as nat),
    {
        r.push(c);
        assert(r@ =~= repeat_char(c, (k + 1) as nat));
    }
    r
}

impl MD003 {
    /// The rule with the default configuration (`consistent`).
    pub fn new() -> (r: Self)
        ensures
            r.config.style@ == "consistent"@,
    {
        MD003 { config: Md003Config::default() }
    }

    /// The rule with a given configuration.
    pub fn with_config(config: Md003Config) -> (r: Self)
        ensures
            r.config.style@ == config.style@,
    {
        MD003 { config }
    }

    /// The style of the heading on line `line_number`.
    fn determine_heading_style(&self, document: &Document, line_number: usize) -> (r: HeadingStyle)
        ensures
            r == heading_style(document.lines_of(), line_number),
    {
        let idx = if line_number == 0 { 0 } else { line_number - 1 };
        let n = document.line_count();
        if idx >= n {
            return HeadingStyle::Atx;
        }
        let t = trim_chars(document.line(idx));
        if t.len() > 0 && t[0] == '#' {
            if t.len() > 1 && t[t.len() - 1] == '#' {
                let inner = strip_hashes_chars(t.as_slice());
                if trim_chars(inner.as_slice()).len() > 0 {
                    return HeadingStyle::AtxClosed;
                }
            }
            return HeadingStyle::Atx;
        }
        if idx + 1 < n {
            let nt = trim_chars(document.line(idx + 1));
            if nt.len() > 0 && (nt[0] == '=' || nt[0] == '-') {
                if scan_fwd(nt.as_slice(), 0, CharClass::Exactly(nt[0])) == nt.len() {
                    return HeadingStyle::Setext;
                }
            }
        }
        HeadingStyle::Atx
    }

    /// The style the document should use, given the first heading's style.
    fn determine_expected_style(&self, first: HeadingStyle) -> (r: HeadingStyle)
        ensures
            r == expected_style(self.config.style@, first),
    {
        let c = chars_of(self.config.style.as_str());
        if equals_lit(c.as_slice(), "atx") {
            HeadingStyle::Atx
        } else if equals_lit(c.as_slice(), "atx_closed") {
            HeadingStyle::AtxClosed
        } else if equals_lit(c.as_slice(), "setext") {
            HeadingStyle::Setext
        } else if equals_lit(c.as_slice(), "setext_with_atx") {
            HeadingStyle::SetextWithAtx
        } else {
            first
        }
    }

    /// Whether a heading of style `actual` and level `level` meets `expected`.
    fn is_valid_style(&self, actual: HeadingStyle, expected: HeadingStyle, level: u8) -> (b: bool)
        ensures
            b == valid_style(actual, expected, level),
    {
        match expected {
            HeadingStyle::SetextWithAtx => if level <= 2 {
                actual == HeadingStyle::Setext
            } else {
                actual == HeadingStyle::Atx
            },
            _ => actual == expected,
        }
    }

    /// The text of the heading on line `line_number` of style `style`.
    fn extract_heading_text(&self, document: &Document, line_number: usize, style: HeadingStyle) -> (r:
        Vec<char>)
        ensures
            r@ == heading_text(document.lines_of(), line_number, style),
            r@.len() <= usize::MAX / 4,
    {
        let idx = if line_number == 0 { 0 } else { line_number - 1 };
        if idx >= document.line_count() {
            return Vec::new();
        }
        let t = trim_chars(document.line(idx));
        match style {
            HeadingStyle::Atx => {
                proof {
                    lemma_run_fwd(t@, 0, CharClass::Exactly('#'));
                }
                let a = scan_fwd(t.as_slice(), 0, CharClass::Exactly('#'));
                let rest = slice_chars(t.as_slice(), a, t.len());
                assert(rest@.len() <= t@.len());
                trim_chars(rest.as_slice())
            },
            HeadingStyle::AtxClosed => {
                let inner = strip_hashes_chars(t.as_slice());
                trim_chars(inner.as_slice())
            },
            _ => t,
        }
    }

    /// The fix that rewrites a heading in the expected style.
    fn create_heading_fix(
        &self,
        document: &Document,
        line_number: usize,
        level: u8,
        style: HeadingStyle,
        expected: HeadingStyle,
    ) -> (f: crate::violation::Fix)
        requires
            line_index(line_number) < document.lines_of().len(),
        ensures
            f.deep_view() == md003_fix(document.lines_of(), line_number, level, style, expected),
    {
        let ghost lines = document.lines_of();
        let n = document.line_count();
        let idx = if line_number == 0 { 0 } else { line_number - 1 };
        let text = self.extract_heading_text(document, line_number, style);
        let h = repeat('#', level as usize);
        assert(h@ == hashes(level as nat));
        let mut rep: Vec<char> = Vec::new();
        let setext_like = match expected {
            HeadingStyle::Atx => false,
            HeadingStyle::AtxClosed => false,
            _ => true,
        };
        if setext_like && level <= 2 {
            push_all(&mut rep, text.as_slice());
            rep.push('\n');
            let tb = byte_len_prefix(text.as_slice(), text.len());
            assert(text@.take(text@.len() as int) == text@);
            let u = repeat(if level == 1 { '=' } else { '-' }, tb);
            push_all(&mut rep, u.as_slice());
            rep.push('\n');
        } else {
            push_all(&mut rep, h.as_slice());
            rep.push(' ');
            push_all(&mut rep, text.as_slice());
            if expected == HeadingStyle::AtxClosed {
                rep.push(' ');
                push_all(&mut rep, h.as_slice());
            }
            rep.push('\n');
        }
        assert(rep@ =~= heading_in_style(text@, level, expected));
        let two = style == HeadingStyle::Setext && idx + 1 < n;
        let end = if two { line_number + 1 } else { line_number };
        let col = if end > line_number && end <= n {
            let l = document.line(end - 1);
            let b = byte_len_prefix(l, l.len());
            assert(l@.take(l@.len() as int) == l@);
            b + 1
        } else {
            let l = document.line(idx);
            let b = byte_len_prefix(l, l.len());
            assert(l@.take(l@.len() as int) == l@);
            b + 1
        };
        let mut description = String::from_str("Convert to ");
        description.append(style_str(expected));
        description.append(" style");
        new_fix(description, Some(string_of(rep.as_slice())), line_number, 1, end, col)
    }

    /// The rule's identifier.
    pub fn id(&self) -> (r: &'static str)
        ensures
            r@ == "MD003"@,
    {
        "MD003"
    }

    /// The rule's name.
    pub fn name(&self) -> (r: &'static str)
        ensures
            r@ == "heading-style"@,
    {
        "heading-style"
    }

    /// What the rule checks.
    pub fn description(&self) -> (r: &'static str)
        ensures
            r@ == "Heading style should be consistent throughout the document"@,
    {
        "Heading style should be consistent throughout the document"
    }

    /// Checks a document.
    pub fn check(&self, document: &Document) -> (r: Vec<Violation>)
        ensures
            r.deep_view() == md003_violations(document.lines_of(), document.nodes_of(), self.config.style@),
    {
        let ghost lines = document.lines_of();
        let nodes = document.nodes();
        let f = find_first_heading(nodes);
        let mut out: Vec<Violation> = Vec::new();
        if f >= nodes.len() {
            return out;
        }
        let first = self.determine_heading_style(document, nodes[f].start_line);
        let expected = self.determine_expected_style(first);
        let n = document.line_count();
        let mut i: usize = 0;
        while i < nodes.len()
            invariant
                nodes@ == document.nodes_of(),
                lines == document.lines_of(),
                n == lines.len(),
                f < nodes@.len(),
                f as int == first_heading_from(nodes@, 0),
                expected == expected_style(self.config.style@, heading_style(lines, nodes@[f as int].start_line)),
                i <= nodes@.len(),
                out.deep_view() + md003_from(lines, nodes@, i as int, expected) == md003_violations(
                    lines,
                    nodes@,
                    self.config.style@,
                ),
            decreases nodes@.len() - i,
        {
            let node = &nodes[i];
            match &node.kind {
                NodeKind::Heading { level, .. } => {
                    let ln = node.start_line;
                    let style = self.determine_heading_style(document, ln);
                    let idx = if ln == 0 { 0 } else { ln - 1 };
                    if !self.is_valid_style(style, expected, *level) && idx < n {
                        let fix = self.create_heading_fix(document, ln, *level, style, expected);
                        let mut message = String::from_str("Expected '");
                        message.append(style_str(expected));
                        message.append("' style heading but found '");
                        message.append(style_str(style));
                        message.append("' style");
                        let v = new_violation(
                            "MD003",
                            message,
                            ln,
                            node.start_column,
                            Severity::Error,
                            Some(fix),
                        );
                        let ghost before = out.deep_view();
                        out.push(v);
                        assert(out.deep_view() == before.push(v.deep_view()));
                    }
                },
                _ => {},
            }
            i = i + 1;
        }
        out
    }
}

impl MD003 {
    /// The rule configured by a TOML table: `style`.
    pub fn from_config(config: &toml::Value) -> (r: Self)
        ensures
            r.config.style@ == match as_str(toml_get(*config, "style"@)) {
                Some(s) => s,
                None => "consistent"@,
            },
    {
        let mut rule_config = Md003Config::default();
        match entry_str(config_entry(config, "style")) {
            Some(s) => {
                rule_config.style = s;
            },
            None => {},
        }
        MD003 { config: rule_config }
    }
}

impl Default for MD003 {
    fn default() -> (r: Self)
        ensures
            r.config.style@ == "consistent"@,
    {
        MD003::new()
    }
}

} // verus!
