//! MD050: one style of strong emphasis, `**` or `__`, throughout a document.
use vstd::prelude::*;
use crate::config::{as_str, config_entry, entry_str, toml_get};
use crate::text::lowercase;
use vstd::string::StringExecFns;
use crate::document::Document;
use crate::fences::{fence_flags, fence_state, line_starts_fence, starts_fence};
use crate::lines::push_vec;
use crate::text::{
    byte_len, byte_len_prefix, find_chars, first_occ, lemma_first_occ, push_all, slice_chars,
    string_of,
};
use crate::violation::{
    fix_model, new_fix, new_violation, violation_model, Severity, Violation, ViolationModel,
};

verus! {

/// Which marker strong emphasis should use.
#[derive(Debug, Clone, Copy, PartialEq, Eq, Structural)]
pub enum StrongStyle {
    /// `**text**`.
    Asterisk,
    /// `__text__`.
    Underscore,
    /// Whichever the document uses first.
    Consistent,
}

/// Rule that flags strong emphasis written with the other marker.
pub struct MD050 {
    /// The preferred style.
    pub style: StrongStyle,
}

/// The style that the marker character `c` writes.
pub open spec fn style_of(c: char) -> StrongStyle {
    if c == '*' { StrongStyle::Asterisk } else { StrongStyle::Underscore }
}

/// The doubled marker of a style.
pub open spec fn marker_of(style: StrongStyle) -> Seq<char> {
    if style == StrongStyle::Asterisk { "**"@ } else { "__"@ }
}

/// `s` with the first occurrence of `from` replaced by `to`.
pub open spec fn replace_first(s: Seq<char>, from: Seq<char>, to: Seq<char>) -> Seq<char> {
    let p = first_occ(s, 0, from);
    if p < s.len() {
        s.take(p) + to + s.subrange(p + from.len(), s.len() as int)
    } else {
        s
    }
}

/// The violation for strong text `text` written with marker `found` at index
/// `i` of line `num`, where `expected` was the style to use.
pub open spec fn md050_violation(
    num: int,
    s: Seq<char>,
    i: int,
    text: Seq<char>,
    found: Seq<char>,
    expected: Seq<char>,
) -> ViolationModel {
    violation_model(
        "MD050"@,
        "Strong emphasis style inconsistent - expected '"@ + expected + "' but found '"@ + found
            + "'"@,
        num as usize,
        (i + 1) as usize,
        Severity::Warning,
        Some(
            fix_model(
                "Change strong emphasis style from '"@ + found + "' to '"@ + expected + "'"@,
                Some(replace_first(s, found + text + found, expected + text + expected) + seq!['\n']),
                num as usize,
                1,
                num as usize,
                (byte_len(s) + 1) as usize,
            ),
        ),
    )
}

/// The violations on line `num` from index `i` on, and the style in force
/// afterwards, when `style` was in force before: each `**` or `__` up to the
/// next doubled marker of the same kind is strong text; the first one fixes
/// the style if none was in force.
pub open spec fn line_strong(num: int, s: Seq<char>, i: int, style: Option<StrongStyle>) -> (Seq<
    ViolationModel,
>, Option<StrongStyle>)
    decreases if 0 <= i < s.len() { s.len() - i } else { 0 },
{
    if i < 0 || i >= s.len() {
        (seq![], style)
    } else if (s[i] == '*' || s[i] == '_') && i + 1 < s.len() && s[i + 1] == s[i] {
        let c = s[i];
        let e = first_occ(s, i + 2, seq![c, c]);
        proof {
            lemma_first_occ(s, i + 2, seq![c, c]);
        }
        if e < s.len() {
            let current = style_of(c);
            match style {
                Some(x) => {
                    let rest = line_strong(num, s, e + 2, style);
                    if x != current {
                        (
                            seq![
                                md050_violation(
                                    num,
                                    s,
                                    i,
                                    s.subrange(i + 2, e),
                                    marker_of(current),
                                    marker_of(x),
                                ),
                            ] + rest.0,
                            rest.1,
                        )
                    } else {
                        rest
                    }
                },
                None => line_strong(num, s, e + 2, Some(current)),
            }
        } else {
            line_strong(num, s, i + 2, style)
        }
    } else {
        line_strong(num, s, i + 1, style)
    }
}

/// The violations on lines `i..`, given whether each line is skipped and the
/// style in force before line `i`.
pub open spec fn md050_from(
    lines: Seq<Seq<char>>,
    skip: Seq<bool>,
    i: int,
    style: Option<StrongStyle>,
) -> Seq<ViolationModel>
    decreases lines.len() - i,
{
    if i < 0 || i >= lines.len() {
        seq![]
    } else if skip[i] {
        md050_from(lines, skip, i + 1, style)
    } else {
        let r = line_strong(i + 1, lines[i], 0, style);
        r.0 + md050_from(lines, skip, i + 1, r.1)
    }
}

/// The style in force before the first line, for a configured style.
pub open spec fn initial_style(style: StrongStyle) -> Option<StrongStyle> {
    match style {
        StrongStyle::Consistent => None,
        _ => Some(style),
    }
}

/// The violations MD050 reports on a document with the given lines; fence
/// lines and lines inside fences are skipped.
pub open spec fn md050_violations(lines: Seq<Seq<char>>, style: StrongStyle) -> Seq<ViolationModel> {
    md050_from(
        lines,
        Seq::new(lines.len(), |i: int| starts_fence(lines[i]) || fence_state(lines, i + 1)),
        0,
        initial_style(style),
    )
}

/// The marker character of the strong style other than `s`.
pub open spec fn other_strong_char(s: StrongStyle) -> char {
    if s == StrongStyle::Asterisk { '_' } else { '*' }
}

/// No line holds the character `c`.
pub open spec fn strong_char_absent(lines: Seq<Seq<char>>, c: char) -> bool {
    forall|i: int, k: int| 0 <= i < lines.len() && 0 <= k < lines[i].len() ==> #[trigger] lines[i][k] != c
}

proof fn lemma_uniform_line(num: int, l: Seq<char>, i: int, style: Option<StrongStyle>, s: StrongStyle)
    requires
        s == StrongStyle::Asterisk || s == StrongStyle::Underscore,
        forall|k: int| 0 <= k < l.len() ==> #[trigger] l[k] != other_strong_char(s),
        style is None || style == Some(s),
    ensures
        line_strong(num, l, i, style).0 == Seq::<ViolationModel>::empty(),
        line_strong(num, l, i, style).1 is None || line_strong(num, l, i, style).1 == Some(s),
    decreases if 0 <= i < l.len() { l.len() - i } else { 0 },
{
    if 0 <= i < l.len() {
        if (l[i] == '*' || l[i] == '_') && i + 1 < l.len() && l[i + 1] == l[i] {
            let c = l[i];
            assert(c != other_strong_char(s));
            let e = first_occ(l, i + 2, seq![c, c]);
            lemma_first_occ(l, i + 2, seq![c, c]);
            if e < l.len() {
                assert(style_of(c) == s);
                lemma_uniform_line(num, l, e + 2, Some(s), s);
            } else {
                lemma_uniform_line(num, l, i + 2, style, s);
            }
        } else {
            lemma_uniform_line(num, l, i + 1, style, s);
        }
    }
}

proof fn lemma_uniform_from(
    lines: Seq<Seq<char>>,
    skip: Seq<bool>,
    i: int,
    style: Option<StrongStyle>,
    s: StrongStyle,
)
    requires
        0 <= i,
        skip.len() == lines.len(),
        s == StrongStyle::Asterisk || s == StrongStyle::Underscore,
        strong_char_absent(lines, other_strong_char(s)),
        style is None || style == Some(s),
    ensures
        md050_from(lines, skip, i, style) == Seq::<ViolationModel>::empty(),
    decreases lines.len() - i,
{
    if i < lines.len() {
        if skip[i] {
            lemma_uniform_from(lines, skip, i + 1, style, s);
        } else {
            let l = lines[i];
            assert forall|k: int| 0 <= k < l.len() implies #[trigger] l[k] != other_strong_char(s) by {
                assert(lines[i][k] != other_strong_char(s));
            }
            lemma_uniform_line(i + 1, l, 0, style, s);
            let r = line_strong(i + 1, l, 0, style);
            lemma_uniform_from(lines, skip, i + 1, r.1, s);
        }
    }
}

/// Law: a document that writes strong emphasis with one marker character
/// only (the other never occurs) draws no report, in the consistent mode or
/// when that marker's style is the one configured.
pub proof fn md050_single_marker_passes(lines: Seq<Seq<char>>, style: StrongStyle, s: StrongStyle)
    requires
        s == StrongStyle::Asterisk || s == StrongStyle::Underscore,
        strong_char_absent(lines, other_strong_char(s)),
        style == StrongStyle::Consistent || style == s,
    ensures
        md050_violations(lines, style) == Seq::<ViolationModel>::empty(),
{
    lemma_uniform_from(
        lines,
        Seq::new(lines.len(), |i: int| starts_fence(lines[i]) || fence_state(lines, i + 1)),
        0,
        initial_style(style),
        s,
    );
}

fn marker_chars(style: StrongStyle) -> (r: Vec<char>)
    ensures
        r@ == marker_of(style),
{
    let mut r: Vec<char> = Vec::new();
    if style == StrongStyle::Asterisk {
        r.push('*');
        r.push('*');
        proof {
            reveal_strlit("**");
        }
    } else {
        r.push('_');
        r.push('_');
        proof {
            reveal_strlit("__");
        }
    }
    assert(r@ =~= marker_of(style));
    r
}

fn replace_first_chars(s: &[char], from: &[char], to: &[char]) -> (r: Vec<char>)
    ensures
        r@ == replace_first(s@, from@, to@),
{
    proof {
        lemma_first_occ(s@, 0, from@);
    }
    let p = find_chars(s, 0, from);
    if p < s.len() {
        let mut r = slice_chars(s, 0, p);
        push_all(&mut r, to);
        let rest = slice_chars(s, p + from.len(), s.len());
        push_all(&mut r, rest.as_slice());
        assert(r@ =~= replace_first(s@, from@, to@));
        r
    } else {
        slice_chars(s, 0, s.len())
    }
}

impl MD050 {
    /// The rule that follows the first style the document uses.
    pub fn new() -> (r: Self)
        ensures
            r.style == StrongStyle::Consistent,
    {
        MD050 { style: StrongStyle::Consistent }
    }

    /// The rule with a given style.
    pub fn with_style(style: StrongStyle) -> (r: Self)
        ensures
            r.style == style,
    {
        MD050 { style }
    }

    fn report(
        &self,
        num: usize,
        s: &[char],
        i: usize,
        e: usize,
        found: StrongStyle,
        expected: StrongStyle,
    ) -> (v: Violation)
        requires
            i + 2 <= e <= s@.len(),
            s@.len() <= usize::MAX / 4,
        ensures
            v.deep_view() == md050_violation(
                num as int,
                s@,
                i as int,
                s@.subrange(i + 2, e as int),
                marker_of(found),
                marker_of(expected),
            ),
    {
        let fm = marker_chars(found);
        let em = marker_chars(expected);
        let text = slice_chars(s, i + 2, e);
        let mut written: Vec<char> = Vec::new();
        push_all(&mut written, fm.as_slice());
        push_all(&mut written, text.as_slice());
        push_all(&mut written, fm.as_slice());
        let mut fixed: Vec<char> = Vec::new();
        push_all(&mut fixed, em.as_slice());
        push_all(&mut fixed, text.as_slice());
        push_all(&mut fixed, em.as_slice());
        assert(written@ == marker_of(found) + s@.subrange(i + 2, e as int) + marker_of(found));
        assert(fixed@ == marker_of(expected) + s@.subrange(i + 2, e as int) + marker_of(expected));
        let mut line = replace_first_chars(s, written.as_slice(), fixed.as_slice());
        line.push('\n');
        assert(line@ =~= replace_first(s@, written@, fixed@) + seq!['\n']);
        let blen = byte_len_prefix(s, s.len());
        assert(s@.take(s@.len() as int) == s@);
        let fs = string_of(fm.as_slice());
        let es = string_of(em.as_slice());
        let mut description = String::from_str("Change strong emphasis style from '");
        description.append(fs.as_str());
        description.append("' to '");
        description.append(es.as_str());
        description.append("'");
        let fix = new_fix(description, Some(string_of(line.as_slice())), num, 1, num, blen + 1);
        let mut message = String::from_str("Strong emphasis style inconsistent - expected '");
        message.append(es.as_str());
        message.append("' but found '");
        message.append(fs.as_str());
        message.append("'");
        new_violation("MD050", message, num, i + 1, Severity::Warning, Some(fix))
    }

    /// The violations on one line and the style in force afterwards.
    fn check_line_strong(
        &self,
        line: &[char],
        line_number: usize,
        expected_style: Option<StrongStyle>,
    ) -> (r: (Vec<Violation>, Option<StrongStyle>))
        requires
            line@.len() <= usize::MAX / 4,
        ensures
            r.0.deep_view() == line_strong(line_number as int, line@, 0, expected_style).0,
            r.1 == line_strong(line_number as int, line@, 0, expected_style).1,
    {
        let ghost s = line@;
        let n = line.len();
        let mut out: Vec<Violation> = Vec::new();
        let mut detected = expected_style;
        let mut i: usize = 0;
        while i < n
            invariant
                n == s.len(),
                n <= usize::MAX / 4,
                s == line@,
                i <= n,
                out.deep_view() + line_strong(line_number as int, s, i as int, detected).0
                    == line_strong(line_number as int, s, 0, expected_style).0,
                line_strong(line_number as int, s, i as int, detected).1 == line_strong(
                    line_number as int,
                    s,
                    0,
                    expected_style,
                ).1,
            decreases n - i,
        {
            let c = line[i];
            if (c == '*' || c == '_') && i + 1 < n && line[i + 1] == c {
                match self.find_closing_strong_marker(line, i + 2, c) {
                    Some(e) => {
                        let current = if c == '*' {
                            StrongStyle::Asterisk
                        } else {
                            StrongStyle::Underscore
                        };
                        match detected {
                            Some(x) => {
                                if x != current {
                                    let v = self.report(line_number, line, i, e, current, x);
                                    let ghost before = out.deep_view();
                                    out.push(v);
                                    assert(out.deep_view() == before.push(v.deep_view()));
                                    assert(before + line_strong(line_number as int, s, i as int, detected).0
                                        == out.deep_view() + line_strong(
                                        line_number as int,
                                        s,
                                        e + 2,
                                        detected,
                                    ).0);
                                }
                            },
                            None => {
                                detected = Some(current);
                            },
                        }
                        i = e + 2;
                    },
                    None => {
                        i = i + 2;
                    },
                }
            } else {
                i = i + 1;
            }
        }
        (out, detected)
    }

    /// The first index at or after `start` where `marker marker` occurs.
    fn find_closing_strong_marker(&self, chars: &[char], start: usize, marker: char) -> (r: Option<
        usize,
    >)
        requires
            start <= chars@.len(),
        ensures
            match r {
                Some(e) => e as int == first_occ(chars@, start as int, seq![marker, marker]) && start
                    <= e && e + 2 <= chars@.len(),
                None => first_occ(chars@, start as int, seq![marker, marker]) >= chars@.len(),
            },
    {
        let mut m: Vec<char> = Vec::new();
        m.push(marker);
        m.push(marker);
        assert(m@ == seq![marker, marker]);
        proof {
            lemma_first_occ(chars@, start as int, seq![marker, marker]);
        }
        let e = find_chars(chars, start, m.as_slice());
        if e < chars.len() {
            Some(e)
        } else {
            None
        }
    }

    /// The rule's identifier.
    pub fn id(&self) -> (r: &'static str)
        ensures
            r@ == "MD050"@,
    {
        "MD050"
    }

    /// The rule's name.
    pub fn name(&self) -> (r: &'static str)
        ensures
            r@ == "strong-style"@,
    {
        "strong-style"
    }

    /// What the rule checks.
    pub fn description(&self) -> (r: &'static str)
        ensures
            r@ == "Strong emphasis style should be consistent"@,
    {
        "Strong emphasis style should be consistent"
    }

    /// The rule offers fixes.
    pub fn can_fix(&self) -> (b: bool)
        ensures
            b,
    {
        true
    }

    /// Checks a document.
    pub fn check(&self, document: &Document) -> (r: Vec<Violation>)
        ensures
            r.deep_view() == md050_violations(document.lines_of(), self.style),
    {
        let ghost lines = document.lines_of();
        let ghost skip = Seq::new(lines.len(), |i: int| starts_fence(lines[i]) || fence_state(lines, i + 1));
        let flags = fence_flags(document);
        let n = document.line_count();
        let mut style = match self.style {
            StrongStyle::Asterisk => Some(StrongStyle::Asterisk),
            StrongStyle::Underscore => Some(StrongStyle::Underscore),
            StrongStyle::Consistent => None,
        };
        let mut out: Vec<Violation> = Vec::new();
        let mut i: usize = 0;
        while i < n
            invariant
                n == lines.len(),
                lines == document.lines_of(),
                skip == Seq::new(lines.len(), |k: int| starts_fence(lines[k]) || fence_state(lines, k + 1)),
                flags@.len() == n,
                forall|k: int| 0 <= k < n ==> #[trigger] flags@[k] == fence_state(lines, k + 1),
                i <= n,
                out.deep_view() + md050_from(lines, skip, i as int, style) == md050_violations(
                    lines,
                    self.style,
                ),
            decreases n - i,
        {
            let line = document.line(i);
            if line_starts_fence(line) || flags[i] {
                i = i + 1;
            } else {
                let (v, st) = self.check_line_strong(line, i + 1, style);
                let ghost before = out.deep_view();
                push_vec(&mut out, v);
                style = st;
                i = i + 1;
            }
        }
        out
    }
}

impl MD050 {
    /// The rule configured by a TOML table: `style`, read in any case; an
    /// unknown style means consistent.
    pub fn from_config(config: &toml::Value) -> (r: Self)
        ensures
            r.style == match as_str(toml_get(*config, "style"@)) {
                Some(s) => if lowercase(s) == "asterisk"@ {
                    StrongStyle::Asterisk
                } else if lowercase(s) == "underscore"@ {
                    StrongStyle::Underscore
                } else if lowercase(s) == "consistent"@ {
                    StrongStyle::Consistent
                } else {
                    StrongStyle::Consistent
                },
                None => StrongStyle::Consistent,
            },
    {
        let mut rule = MD050::new();
        match entry_str(config_entry(config, "style")) {
            Some(s) => {
                let l = crate::text::chars_of(crate::text::to_lowercase(s.as_str()).as_str());
                rule.style = if crate::text::equals_lit(l.as_slice(), "asterisk") {
                    StrongStyle::Asterisk
                } else if crate::text::equals_lit(l.as_slice(), "underscore") {
                    StrongStyle::Underscore
                } else if crate::text::equals_lit(l.as_slice(), "consistent") {
                    StrongStyle::Consistent
                } else {
                    StrongStyle::Consistent
                };
            },
            None => {},
        }
        rule
    }
}

impl Default for MD050 {
    fn default() -> (r: Self)
        ensures
            r.style == StrongStyle::Consistent,
    {
        MD050::new()
    }
}

} // verus!
