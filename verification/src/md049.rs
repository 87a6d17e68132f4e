//! MD049: one style of emphasis, `*` or `_`, throughout a document.
use vstd::prelude::*;
use crate::config::{as_str, config_entry, entry_str, toml_get};
use crate::text::lowercase;
use vstd::string::StringExecFns;
use crate::document::Document;
use crate::fences::{fence_flags, fence_state, line_starts_fence, starts_fence};
use crate::lines::push_vec;
use crate::md037::{closing_run, lemma_closing_run, span_view};
use crate::text::{lemma_run_fwd, run_fwd, scan_fwd, CharClass};
use crate::violation::{new_violation, violation_model, Severity, Violation, ViolationModel};

verus! {

/// Which marker emphasis should use.
#[derive(Debug, Clone, Copy, PartialEq, Eq, Structural)]
pub enum EmphasisStyle {
    /// `*text*`.
    Asterisk,
    /// `_text_`.
    Underscore,
    /// Whichever the document uses first.
    Consistent,
}

/// Rule that flags emphasis written with the other marker.
pub struct MD049 {
    /// The preferred style.
    pub style: EmphasisStyle,
}

/// The code spans of `s` from `i` on, as inclusive `(first, last)` index
/// pairs; an opening run without a closing run of the same length ends them.
pub open spec fn inline_spans_from(s: Seq<char>, i: int) -> Seq<(int, int)>
    decreases if 0 <= i < s.len() { s.len() - i } else { 0 },
{
    if i < 0 || i >= s.len() {
        seq![]
    } else if s[i] == '`' {
        let e = run_fwd(s, i + 1, CharClass::Exactly('`'));
        proof {
            lemma_run_fwd(s, i + 1, CharClass::Exactly('`'));
            lemma_closing_run(s, e, e - i);
        }
        let c = closing_run(s, e, e - i);
        if c >= 0 {
            seq![(i, c - 1)] + inline_spans_from(s, c)
        } else {
            seq![]
        }
    } else {
        inline_spans_from(s, i + 1)
    }
}

/// Span `k` covers index `pos`.
pub open spec fn span_holds(spans: Seq<(int, int)>, k: int, pos: int) -> bool {
    spans[k].0 <= pos <= spans[k].1
}

/// Index `pos` lies in one of the spans.
pub open spec fn in_inline_span(pos: int, spans: Seq<(int, int)>) -> bool {
    exists|k: int| 0 <= k < spans.len() && #[trigger] span_holds(spans, k, pos)
}

/// The index of the marker `c` that closes emphasis, searching from `i`
/// outside code spans and skipping doubled markers; -1 when there is none.
pub open spec fn emphasis_close(s: Seq<char>, spans: Seq<(int, int)>, i: int, c: char) -> int
    decreases if 0 <= i < s.len() { s.len() - i } else { 0 },
{
    if i < 0 || i >= s.len() {
        -1
    } else if in_inline_span(i, spans) {
        emphasis_close(s, spans, i + 1, c)
    } else if s[i] == c {
        if i + 1 < s.len() && s[i + 1] == c {
            emphasis_close(s, spans, i + 2, c)
        } else if i > 0 && s[i - 1] == c {
            emphasis_close(s, spans, i + 1, c)
        } else {
            i
        }
    } else {
        emphasis_close(s, spans, i + 1, c)
    }
}

pub proof fn lemma_emphasis_close(s: Seq<char>, spans: Seq<(int, int)>, i: int, c: char)
    requires
        0 <= i,
    ensures
        emphasis_close(s, spans, i, c) == -1 || (i <= emphasis_close(s, spans, i, c) < s.len()),
    decreases if 0 <= i < s.len() { s.len() - i } else { 0 },
{
    if i < s.len() {
        if in_inline_span(i, spans) {
            lemma_emphasis_close(s, spans, i + 1, c);
        } else if s[i] == c {
            if i + 1 < s.len() && s[i + 1] == c {
                lemma_emphasis_close(s, spans, i + 2, c);
            } else if i > 0 && s[i - 1] == c {
                lemma_emphasis_close(s, spans, i + 1, c);
            }
        } else {
            lemma_emphasis_close(s, spans, i + 1, c);
        }
    }
}

/// The style that the marker `c` writes.
pub open spec fn emphasis_style_of(c: char) -> EmphasisStyle {
    if c == '*' { EmphasisStyle::Asterisk } else { EmphasisStyle::Underscore }
}

/// The violations on line `num` from index `i` on, and the style in force
/// afterwards, when `style` was in force before.
pub open spec fn line_emphasis(
    num: int,
    s: Seq<char>,
    spans: Seq<(int, int)>,
    i: int,
    style: Option<EmphasisStyle>,
) -> (Seq<ViolationModel>, Option<EmphasisStyle>)
    decreases if 0 <= i < s.len() { s.len() - i } else { 0 },
{
    if i < 0 || i >= s.len() {
        (seq![], style)
    } else if in_inline_span(i, spans) {
        line_emphasis(num, s, spans, i + 1, style)
    } else if s[i] == '*' || s[i] == '_' {
        let c = s[i];
        if i + 1 < s.len() && s[i + 1] == c {
            line_emphasis(num, s, spans, i + 2, style)
        } else if i > 0 && s[i - 1] == c {
            line_emphasis(num, s, spans, i + 1, style)
        } else {
            let e = emphasis_close(s, spans, i + 1, c);
            proof {
                lemma_emphasis_close(s, spans, i + 1, c);
            }
            if e < 0 {
                line_emphasis(num, s, spans, i + 1, style)
            } else {
                let current = emphasis_style_of(c);
                match style {
                    Some(x) => {
                        let rest = line_emphasis(num, s, spans, e + 1, style);
                        if x != current {
                            (
                                seq![
                                    violation_model(
                                        "MD049"@,
                                        "Emphasis style inconsistent - expected '"@ + seq![
                                            if x == EmphasisStyle::Asterisk { '*' } else { '_' },
                                        ] + "' but found '"@ + seq![c] + "'"@,
                                        num as usize,
                                        (i + 1) as usize,
                                        Severity::Warning,
                                        None,
                                    ),
                                ] + rest.0,
                                rest.1,
                            )
                        } else {
                            rest
                        }
                    },
                    None => line_emphasis(num, s, spans, e + 1, Some(current)),
                }
            }
        }
    } else {
        line_emphasis(num, s, spans, i + 1, style)
    }
}

/// The violations on lines `i..`, given whether each line is skipped and the
/// style in force before line `i`.
pub open spec fn md049_from(
    lines: Seq<Seq<char>>,
    skip: Seq<bool>,
    i: int,
    style: Option<EmphasisStyle>,
) -> Seq<ViolationModel>
    decreases lines.len() - i,
{
    if i < 0 || i >= lines.len() {
        seq![]
    } else if skip[i] {
        md049_from(lines, skip, i + 1, style)
    } else {
        let r = line_emphasis(i + 1, lines[i], inline_spans_from(lines[i], 0), 0, style);
        r.0 + md049_from(lines, skip, i + 1, r.1)
    }
}

/// The violations MD049 reports on a document with the given lines; fence
/// lines and lines inside fences are skipped.
pub open spec fn md049_violations(lines: Seq<Seq<char>>, style: EmphasisStyle) -> Seq<ViolationModel> {
    md049_from(
        lines,
        Seq::new(lines.len(), |i: int| starts_fence(lines[i]) || fence_state(lines, i + 1)),
        0,
        match style {
            EmphasisStyle::Consistent => None,
            _ => Some(style),
        },
    )
}

/// The marker character of the emphasis style other than `s`.
pub open spec fn other_marker(s: EmphasisStyle) -> char {
    if s == EmphasisStyle::Asterisk { '_' } else { '*' }
}

/// No line holds the character `c`.
pub open spec fn char_absent(lines: Seq<Seq<char>>, c: char) -> bool {
    forall|i: int, k: int| 0 <= i < lines.len() && 0 <= k < lines[i].len() ==> #[trigger] lines[i][k] != c
}

proof fn lemma_uniform_line(
    num: int,
    l: Seq<char>,
    spans: Seq<(int, int)>,
    i: int,
    style: Option<EmphasisStyle>,
    s: EmphasisStyle,
)
    requires
        s == EmphasisStyle::Asterisk || s == EmphasisStyle::Underscore,
        forall|k: int| 0 <= k < l.len() ==> #[trigger] l[k] != other_marker(s),
        style is None || style == Some(s),
    ensures
        line_emphasis(num, l, spans, i, style).0 == Seq::<ViolationModel>::empty(),
        line_emphasis(num, l, spans, i, style).1 is None || line_emphasis(num, l, spans, i, style).1
            == Some(s),
    decreases if 0 <= i < l.len() { l.len() - i } else { 0 },
{
    if 0 <= i < l.len() {
        if in_inline_span(i, spans) {
            lemma_uniform_line(num, l, spans, i + 1, style, s);
        } else if l[i] == '*' || l[i] == '_' {
            let c = l[i];
            assert(c != other_marker(s));
            if i + 1 < l.len() && l[i + 1] == c {
                lemma_uniform_line(num, l, spans, i + 2, style, s);
            } else if i > 0 && l[i - 1] == c {
                lemma_uniform_line(num, l, spans, i + 1, style, s);
            } else {
                let e = emphasis_close(l, spans, i + 1, c);
                lemma_emphasis_close(l, spans, i + 1, c);
                if e < 0 {
                    lemma_uniform_line(num, l, spans, i + 1, style, s);
                } else {
                    assert(emphasis_style_of(c) == s);
                    lemma_uniform_line(num, l, spans, e + 1, Some(s), s);
                }
            }
        } else {
            lemma_uniform_line(num, l, spans, i + 1, style, s);
        }
    }
}

proof fn lemma_uniform_from(
    lines: Seq<Seq<char>>,
    skip: Seq<bool>,
    i: int,
    style: Option<EmphasisStyle>,
    s: EmphasisStyle,
)
    requires
        0 <= i,
        skip.len() == lines.len(),
        s == EmphasisStyle::Asterisk || s == EmphasisStyle::Underscore,
        char_absent(lines, other_marker(s)),
        style is None || style == Some(s),
    ensures
        md049_from(lines, skip, i, style) == Seq::<ViolationModel>::empty(),
    decreases lines.len() - i,
{
    if i < lines.len() {
        if skip[i] {
            lemma_uniform_from(lines, skip, i + 1, style, s);
        } else {
            let l = lines[i];
            assert forall|k: int| 0 <= k < l.len() implies #[trigger] l[k] != other_marker(s) by {
                assert(lines[i][k] != other_marker(s));
            }
            lemma_uniform_line(i + 1, l, inline_spans_from(l, 0), 0, style, s);
            let r = line_emphasis(i + 1, l, inline_spans_from(l, 0), 0, style);
            lemma_uniform_from(lines, skip, i + 1, r.1, s);
        }
    }
}

/// Law: a document that writes emphasis with one marker character only (the
/// other never occurs) draws no report, in the consistent mode or when that
/// marker's style is the one configured.
pub proof fn md049_single_marker_passes(lines: Seq<Seq<char>>, style: EmphasisStyle, s: EmphasisStyle)
    requires
        s == EmphasisStyle::Asterisk || s == EmphasisStyle::Underscore,
        char_absent(lines, other_marker(s)),
        style == EmphasisStyle::Consistent || style == s,
    ensures
        md049_violations(lines, style) == Seq::<ViolationModel>::empty(),
{
    lemma_uniform_from(
        lines,
        Seq::new(lines.len(), |i: int| starts_fence(lines[i]) || fence_state(lines, i + 1)),
        0,
        match style {
            EmphasisStyle::Consistent => None,
            _ => Some(style),
        },
        s,
    );
}

fn closing_run_exec(s: &[char], from: usize, cnt: usize) -> (r: Option<usize>)
    requires
        from <= s@.len(),
    ensures
        match r {
            Some(c) => c as int == closing_run(s@, from as int, cnt as int) && c <= s@.len(),
            None => closing_run(s@, from as int, cnt as int) == -1,
        },
{
    let n = s.len();
    let mut j = from;
    while j < n
        invariant
            n == s@.len(),
            from <= j <= n,
            closing_run(s@, from as int, cnt as int) == closing_run(s@, j as int, cnt as int),
        decreases n - j,
    {
        if s[j] == '`' {
            proof {
                lemma_run_fwd(s@, j + 1, CharClass::Exactly('`'));
            }
            let r = scan_fwd(s, j + 1, CharClass::Exactly('`'));
            if r - j == cnt {
                return Some(r);
            }
            j = r;
        } else {
            j = j + 1;
        }
    }
    None
}

impl MD049 {
    /// The rule that follows the first style the document uses.
    pub fn new() -> (r: Self)
        ensures
            r.style == EmphasisStyle::Consistent,
    {
        MD049 { style: EmphasisStyle::Consistent }
    }

    /// The rule with a given style.
    pub fn with_style(style: EmphasisStyle) -> (r: Self)
        ensures
            r.style == style,
    {
        MD049 { style }
    }

    /// The code spans of a line, as inclusive index pairs.
    fn get_inline_code_spans(&self, chars: &[char]) -> (r: Vec<(usize, usize)>)
        ensures
            span_view(r@) == inline_spans_from(chars@, 0),
    {
        let ghost s = chars@;
        let n = chars.len();
        let mut spans: Vec<(usize, usize)> = Vec::new();
        let mut i: usize = 0;
        while i < n
            invariant
                n == s.len(),
                s == chars@,
                i <= n,
                span_view(spans@) + inline_spans_from(s, i as int) == inline_spans_from(s, 0),
            decreases n - i,
        {
            if chars[i] == '`' {
                proof {
                    lemma_run_fwd(s, i + 1, CharClass::Exactly('`'));
                }
                let e = scan_fwd(chars, i + 1, CharClass::Exactly('`'));
                proof {
                    lemma_closing_run(s, e as int, e - i);
                }
                let ghost before = span_view(spans@);
                match closing_run_exec(chars, e, e - i) {
                    Some(c) => {
                        spans.push((i, c - 1));
                        assert(span_view(spans@) == before.push((i as int, c - 1)));
                        assert(inline_spans_from(s, i as int) == seq![(i as int, c - 1)]
                            + inline_spans_from(s, c as int));
                        assert(before + inline_spans_from(s, i as int) == span_view(spans@)
                            + inline_spans_from(s, c as int));
                        i = c;
                    },
                    None => {
                        assert(inline_spans_from(s, i as int) == Seq::<(int, int)>::empty());
                        assert(inline_spans_from(s, n as int) == Seq::<(int, int)>::empty());
                        i = n;
                    },
                }
            } else {
                i = i + 1;
            }
        }
        spans
    }

    /// Whether index `pos` lies in one of the code spans.
    fn is_inside_code_span(&self, pos: usize, code_spans: &[(usize, usize)]) -> (b: bool)
        ensures
            b == in_inline_span(pos as int, span_view(code_spans@)),
    {
        let ghost sv = span_view(code_spans@);
        let mut k: usize = 0;
        while k < code_spans.len()
            invariant
                sv == span_view(code_spans@),
                k <= code_spans@.len(),
                forall|m: int| 0 <= m < k ==> !#[trigger] span_holds(sv, m, pos as int),
            decreases code_spans@.len() - k,
        {
            let (a, b) = code_spans[k];
            if a <= pos && pos <= b {
                assert(span_holds(sv, k as int, pos as int));
                return true;
            }
            k = k + 1;
        }
        false
    }

    /// The index of the marker that closes emphasis, searching from `start`.
    fn find_closing_emphasis_marker(
        &self,
        chars: &[char],
        start: usize,
        marker: char,
        code_span_ranges: &[(usize, usize)],
    ) -> (r: Option<usize>)
        requires
            chars@.len() <= usize::MAX / 4,
        ensures
            match r {
                Some(e) => e as int == emphasis_close(
                    chars@,
                    span_view(code_span_ranges@),
                    start as int,
                    marker,
                ),
                None => emphasis_close(chars@, span_view(code_span_ranges@), start as int, marker)
                    == -1,
            },
    {
        let ghost spans = span_view(code_span_ranges@);
        let n = chars.len();
        if start >= n {
            return None;
        }
        let mut i = start;
        while i < n
            invariant
                n == chars@.len(),
                n <= usize::MAX / 4,
                start <= i,
                spans == span_view(code_span_ranges@),
                emphasis_close(chars@, spans, start as int, marker) == emphasis_close(
                    chars@,
                    spans,
                    i as int,
                    marker,
                ),
            decreases n - i,
        {
            if self.is_inside_code_span(i, code_span_ranges) {
                i = i + 1;
            } else if chars[i] == marker {
                if i + 1 < n && chars[i + 1] == marker {
                    i = i + 2;
                } else if i > 0 && chars[i - 1] == marker {
                    i = i + 1;
                } else {
                    return Some(i);
                }
            } else {
                i = i + 1;
            }
        }
        None
    }

    /// The violations on one line and the style in force afterwards.
    fn check_line_emphasis(
        &self,
        line: &[char],
        line_number: usize,
        expected_style: Option<EmphasisStyle>,
    ) -> (r: (Vec<Violation>, Option<EmphasisStyle>))
        requires
            line@.len() <= usize::MAX / 4,
        ensures
            r.0.deep_view() == line_emphasis(
                line_number as int,
                line@,
                inline_spans_from(line@, 0),
                0,
                expected_style,
            ).0,
            r.1 == line_emphasis(
                line_number as int,
                line@,
                inline_spans_from(line@, 0),
                0,
                expected_style,
            ).1,
    {
        let spans = self.get_inline_code_spans(line);
        let ghost sv = span_view(spans@);
        let ghost s = line@;
        let n = line.len();
        let mut out: Vec<Violation> = Vec::new();
        let mut detected = expected_style;
        let mut i: usize = 0;
        while i < n
            invariant
                n == s.len(),
                n <= usize::MAX / 4,
                s == line@,
                sv == span_view(spans@),
                sv == inline_spans_from(s, 0),
                i <= n,
                out.deep_view() + line_emphasis(line_number as int, s, sv, i as int, detected).0
                    == line_emphasis(line_number as int, s, sv, 0, expected_style).0,
                line_emphasis(line_number as int, s, sv, i as int, detected).1 == line_emphasis(
                    line_number as int,
                    s,
                    sv,
                    0,
                    expected_style,
                ).1,
            decreases n - i,
        {
            if self.is_inside_code_span(i, spans.as_slice()) {
                i = i + 1;
            } else if line[i] == '*' || line[i] == '_' {
                let c = line[i];
                if i + 1 < n && line[i + 1] == c {
                    i = if i + 2 <= n { i + 2 } else { n };
                } else if i > 0 && line[i - 1] == c {
                    i = i + 1;
                } else {
                    proof {
                        lemma_emphasis_close(s, sv, i + 1, c);
                    }
                    match self.find_closing_emphasis_marker(line, i + 1, c, spans.as_slice()) {
                        Some(e) => {
                            let current = if c == '*' {
                                EmphasisStyle::Asterisk
                            } else {
                                EmphasisStyle::Underscore
                            };
                            match detected {
                                Some(x) => {
                                    if x != current {
                                        let mut message = String::from_str(
                                            "Emphasis style inconsistent - expected '",
                                        );
                                        let mut ev: Vec<char> = Vec::new();
                                        ev.push(if x == EmphasisStyle::Asterisk { '*' } else { '_' });
                                        let mut cv: Vec<char> = Vec::new();
                                        cv.push(c);
                                        message.append(crate::text::string_of(ev.as_slice()).as_str());
                                        message.append("' but found '");
                                        message.append(crate::text::string_of(cv.as_slice()).as_str());
                                        message.append("'");
                                        let v = new_violation(
                                            "MD049",
                                            message,
                                            line_number,
                                            i + 1,
                                            Severity::Warning,
                                            None,
                                        );
                                        let ghost before = out.deep_view();
                                        out.push(v);
                                        assert(out.deep_view() == before.push(v.deep_view()));
                                        assert(before + line_emphasis(
                                            line_number as int,
                                            s,
                                            sv,
                                            i as int,
                                            detected,
                                        ).0 == out.deep_view() + line_emphasis(
                                            line_number as int,
                                            s,
                                            sv,
                                            e + 1,
                                            detected,
                                        ).0);
                                    }
                                },
                                None => {
                                    detected = Some(current);
                                },
                            }
                            i = e + 1;
                        },
                        None => {
                            i = i + 1;
                        },
                    }
                }
            } else {
                i = i + 1;
            }
        }
        (out, detected)
    }

    /// The rule's identifier.
    pub fn id(&self) -> (r: &'static str)
        ensures
            r@ == "MD049"@,
    {
        "MD049"
    }

    /// The rule's name.
    pub fn name(&self) -> (r: &'static str)
        ensures
            r@ == "emphasis-style"@,
    {
        "emphasis-style"
    }

    /// What the rule checks.
    pub fn description(&self) -> (r: &'static str)
        ensures
            r@ == "Emphasis style should be consistent"@,
    {
        "Emphasis style should be consistent"
    }

    /// Checks a document.
    pub fn check(&self, document: &Document) -> (r: Vec<Violation>)
        ensures
            r.deep_view() == md049_violations(document.lines_of(), self.style),
    {
        let ghost lines = document.lines_of();
        let ghost skip = Seq::new(lines.len(), |i: int| starts_fence(lines[i]) || fence_state(lines, i + 1));
        let flags = fence_flags(document);
        let n = document.line_count();
        let mut style = match self.style {
            EmphasisStyle::Asterisk => Some(EmphasisStyle::Asterisk),
            EmphasisStyle::Underscore => Some(EmphasisStyle::Underscore),
            EmphasisStyle::Consistent => None,
        };
        let mut out: Vec<Violation> = Vec::new();
        let mut i: usize = 0;
        while i < n
            invariant
                n == lines.len(),
                lines == document.lines_of(),
                skip == Seq::new(lines.len(), |k: int| starts_fence(lines[k]) || fence_state(lines, k + 1)),
                flags@.len() == n,
                forall|k: int| 0 <= k < n ==> #[trigger] flags@[k] == fence_state(lines, k + 1),
                i <= n,
                out.deep_view() + md049_from(lines, skip, i as int, style) == md049_violations(
                    lines,
                    self.style,
                ),
            decreases n - i,
        {
            let line = document.line(i);
            if line_starts_fence(line) || flags[i] {
                i = i + 1;
            } else {
                let (v, st) = self.check_line_emphasis(line, i + 1, style);
                push_vec(&mut out, v);
                style = st;
                i = i + 1;
            }
        }
        out
    }
}

impl MD049 {
    /// The rule configured by a TOML table: `style`, read in any case; an
    /// unknown style means consistent.
    pub fn from_config(config: &toml::Value) -> (r: Self)
        ensures
            r.style == match as_str(toml_get(*config, "style"@)) {
                Some(s) => if lowercase(s) == "asterisk"@ {
                    EmphasisStyle::Asterisk
                } else if lowercase(s) == "underscore"@ {
                    EmphasisStyle::Underscore
                } else if lowercase(s) == "consistent"@ {
                    EmphasisStyle::Consistent
                } else {
                    EmphasisStyle::Consistent
                },
                None => EmphasisStyle::Consistent,
            },
    {
        let mut rule = MD049::new();
        match entry_str(config_entry(config, "style")) {
            Some(s) => {
                let l = crate::text::chars_of(crate::text::to_lowercase(s.as_str()).as_str());
                rule.style = if crate::text::equals_lit(l.as_slice(), "asterisk") {
                    EmphasisStyle::Asterisk
                } else if crate::text::equals_lit(l.as_slice(), "underscore") {
                    EmphasisStyle::Underscore
                } else if crate::text::equals_lit(l.as_slice(), "consistent") {
                    EmphasisStyle::Consistent
                } else {
                    EmphasisStyle::Consistent
                };
            },
            None => {},
        }
        rule
    }
}

impl Default for MD049 {
    fn default() -> (r: Self)
        ensures
            r.style == EmphasisStyle::Consistent,
    {
        MD049::new()
    }
}

} // verus!
