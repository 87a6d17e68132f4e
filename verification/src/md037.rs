//! MD037: spaces just inside emphasis markers, such as `** bold **`.
use vstd::prelude::*;
use vstd::string::StringExecFns;
use crate::document::Document;
use crate::fences::{fence_flags, fence_state, line_starts_fence, starts_fence};
use crate::lines::{check_multi_lines, multi_line_violations, push_vec, MultiLineRule};
use crate::text::{
    byte_len, byte_len_prefix, find_chars, first_occ, has_at, is_whitespace, is_ws, lemma_first_occ,
    lemma_run_fwd, lit_at, push_all, run_fwd, scan_fwd, slice_chars, string_of, trim_chars, trimmed,
    CharClass,
};
use crate::violation::{
    fix_model, new_fix, new_violation, violation_model, Severity, Violation, ViolationModel,
};

verus! {

/// Rule that flags emphasis whose text starts or ends with whitespace.
pub struct MD037;

/// One past the run of exactly `cnt` backticks that closes a code span,
/// searching from `j`; -1 when there is none.
pub open spec fn closing_run(s: Seq<char>, j: int, cnt: int) -> int
    decreases if 0 <= j < s.len() { s.len() - j } else { 0 },
{
    if j < 0 || j >= s.len() {
        -1
    } else if s[j] == '`' {
        let r = run_fwd(s, j + 1, CharClass::Exactly('`'));
        proof {
            lemma_run_fwd(s, j + 1, CharClass::Exactly('`'));
        }
        if r - j == cnt {
            r
        } else {
            closing_run(s, r, cnt)
        }
    } else {
        closing_run(s, j + 1, cnt)
    }
}

pub proof fn lemma_closing_run(s: Seq<char>, j: int, cnt: int)
    requires
        0 <= j <= s.len(),
    ensures
        closing_run(s, j, cnt) == -1 || j < closing_run(s, j, cnt) <= s.len(),
    decreases s.len() - j,
{
    if j < s.len() {
        if s[j] == '`' {
            let r = run_fwd(s, j + 1, CharClass::Exactly('`'));
            lemma_run_fwd(s, j + 1, CharClass::Exactly('`'));
            if r - j != cnt {
                lemma_closing_run(s, r, cnt);
            }
        } else {
            lemma_closing_run(s, j + 1, cnt);
        }
    }
}

/// The code spans of `s` from index `i` on, as `(start, end)` pairs: a run
/// of backticks up to the next run of exactly as many.
pub open spec fn code_spans_from(s: Seq<char>, i: int) -> Seq<(int, int)>
    decreases if 0 <= i < s.len() { s.len() - i } else { 0 },
{
    if i < 0 || i >= s.len() {
        seq![]
    } else if s[i] == '`' {
        let e = run_fwd(s, i + 1, CharClass::Exactly('`'));
        proof {
            lemma_run_fwd(s, i + 1, CharClass::Exactly('`'));
            lemma_closing_run(s, e, e - i);
        }
        let c = closing_run(s, e, e - i);
        if c >= 0 {
            seq![(i, c)] + code_spans_from(s, c)
        } else {
            code_spans_from(s, e)
        }
    } else {
        code_spans_from(s, i + 1)
    }
}

/// The code spans of `s`.
pub open spec fn code_spans(s: Seq<char>) -> Seq<(int, int)> {
    code_spans_from(s, 0)
}

/// The spans `v` with integer bounds.
pub open spec fn span_view(v: Seq<(usize, usize)>) -> Seq<(int, int)> {
    v.map_values(|p: (usize, usize)| (p.0 as int, p.1 as int))
}

/// Span `k` covers index `pos`.
pub open spec fn span_covers(spans: Seq<(int, int)>, k: int, pos: int) -> bool {
    spans[k].0 <= pos < spans[k].1
}

/// Index `pos` lies in one of the spans.
pub open spec fn in_span(pos: int, spans: Seq<(int, int)>) -> bool {
    exists|k: int| 0 <= k < spans.len() && #[trigger] span_covers(spans, k, pos)
}

/// What MD037 reports for the emphasis that opens at `i` with `marker`, whose
/// text is `s[cs..ce]` and after which the line goes on at `after`: a
/// violation when that text starts or ends with whitespace.
pub open spec fn emphasis_report(
    num: int,
    s: Seq<char>,
    i: int,
    cs: int,
    ce: int,
    after: int,
    marker: Seq<char>,
) -> Seq<ViolationModel> {
    if cs < ce && (is_ws(s[cs]) || is_ws(s[ce - 1])) {
        seq![
            violation_model(
                "MD037"@,
                "Spaces inside emphasis markers"@,
                num as usize,
                (i + 1) as usize,
                Severity::Warning,
                Some(
                    fix_model(
                        "Remove spaces inside emphasis markers"@,
                        Some(
                            s.take(i) + marker + trimmed(s.subrange(cs, ce)) + marker + s.subrange(
                                after,
                                s.len() as int,
                            ) + seq!['\n'],
                        ),
                        num as usize,
                        1,
                        num as usize,
                        (byte_len(s) + 1) as usize,
                    ),
                ),
            ),
        ]
    } else {
        seq![]
    }
}

/// The violations for the double marker `cc` from index `i` on: each pair of
/// markers outside code spans, the closing one being the next occurrence.
pub open spec fn double_scan(num: int, s: Seq<char>, spans: Seq<(int, int)>, c: char, i: int) -> Seq<
    ViolationModel,
>
    decreases if 0 <= i < s.len() { s.len() - i } else { 0 },
{
    let m = seq![c, c];
    if i < 0 || i + 2 >= s.len() {
        seq![]
    } else if in_span(i, spans) {
        double_scan(num, s, spans, c, i + 1)
    } else if has_at(s, i, m) {
        let j = first_occ(s, i + 2, m);
        proof {
            lemma_first_occ(s, i + 2, m);
        }
        if j < s.len() {
            emphasis_report(num, s, i, i + 2, j, j + 2, m) + double_scan(num, s, spans, c, j + 2)
        } else {
            double_scan(num, s, spans, c, i + 1)
        }
    } else {
        double_scan(num, s, spans, c, i + 1)
    }
}

/// `s[j]` is a lone `c`, not next to another `c`.
pub open spec fn isolated(s: Seq<char>, j: int, c: char) -> bool {
    &&& s[j] == c
    &&& !(j > 0 && s[j - 1] == c)
    &&& !(j + 1 < s.len() && s[j + 1] == c)
}

/// The first index at or after `j` that holds a lone `c`, or `s.len()`.
pub open spec fn single_close(s: Seq<char>, j: int, c: char) -> int
    decreases s.len() - j,
{
    if j < 0 || j >= s.len() {
        s.len() as int
    } else if isolated(s, j, c) {
        j
    } else {
        single_close(s, j + 1, c)
    }
}

pub proof fn lemma_single_close(s: Seq<char>, j: int, c: char)
    requires
        0 <= j <= s.len(),
    ensures
        j <= single_close(s, j, c) <= s.len(),
        single_close(s, j, c) < s.len() ==> isolated(s, single_close(s, j, c), c),
    decreases s.len() - j,
{
    if j < s.len() && !isolated(s, j, c) {
        lemma_single_close(s, j + 1, c);
    }
}

/// The violations for the single marker `c` from index `i` on: each lone
/// marker outside code spans paired with the next lone one.
pub open spec fn single_scan(num: int, s: Seq<char>, spans: Seq<(int, int)>, c: char, i: int) -> Seq<
    ViolationModel,
>
    decreases if 0 <= i < s.len() { s.len() - i } else { 0 },
{
    if i < 0 || i >= s.len() {
        seq![]
    } else if in_span(i, spans) {
        single_scan(num, s, spans, c, i + 1)
    } else if s[i] == c && !isolated(s, i, c) {
        single_scan(num, s, spans, c, i + 1)
    } else if s[i] == c {
        let j = single_close(s, i + 1, c);
        proof {
            lemma_single_close(s, i + 1, c);
        }
        if j < s.len() {
            emphasis_report(num, s, i, i + 1, j, j + 1, seq![c]) + single_scan(
                num,
                s,
                spans,
                c,
                j + 1,
            )
        } else {
            single_scan(num, s, spans, c, i + 1)
        }
    } else {
        single_scan(num, s, spans, c, i + 1)
    }
}

/// The violations MD037 reports on the text of line `num`: `**`, then `__`,
/// then `*`, then `_`.
pub open spec fn emphasis_violations(num: int, s: Seq<char>) -> Seq<ViolationModel> {
    let spans = code_spans(s);
    double_scan(num, s, spans, '*', 0) + double_scan(num, s, spans, '_', 0) + single_scan(
        num,
        s,
        spans,
        '*',
        0,
    ) + single_scan(num, s, spans, '_', 0)
}

/// The line starts an indented code block: four spaces or a tab.
pub open spec fn indented_code_line(line: Seq<char>) -> bool {
    has_at(line, 0, "    "@) || (line.len() > 0 && line[0] == '\t')
}

/// The violations MD037 reports on line `num`; `in_fence` tells whether a
/// fence is open once the line has been read.
pub open spec fn md037_line(num: int, line: Seq<char>, in_fence: bool) -> Seq<ViolationModel> {
    if starts_fence(line) || in_fence || indented_code_line(line) {
        seq![]
    } else {
        emphasis_violations(num, line)
    }
}

fn find_closing_run(s: &[char], from: usize, cnt: usize) -> (r: Option<usize>)
    requires
        from <= s@.len(),
    ensures
        match r {
            Some(c) => c as int == closing_run(s@, from as int, cnt as int),
            None => closing_run(s@, from as int, cnt as int) == -1,
        },
{
    let n = s.len();
    let mut j = from;
    while j < n
        invariant
            n == s@.len(),
            from <= j <= n,
            closing_run(s@, from as int, cnt as int) == closing_run(s@, j as int, cnt as int),
        decreases n - j,
    {
        if s[j] == '`' {
            proof {
                lemma_run_fwd(s@, j + 1, CharClass::Exactly('`'));
            }
            let r = scan_fwd(s, j + 1, CharClass::Exactly('`'));
            if r - j == cnt {
                return Some(r);
            }
            j = r;
        } else {
            j = j + 1;
        }
    }
    None
}

fn find_single_close(s: &[char], from: usize, c: char) -> (r: usize)
    requires
        from <= s@.len(),
    ensures
        r as int == single_close(s@, from as int, c),
{
    let n = s.len();
    let mut j = from;
    while j < n
        invariant
            n == s@.len(),
            from <= j <= n,
            single_close(s@, from as int, c) == single_close(s@, j as int, c),
        decreases n - j,
    {
        if s[j] == c && !(j > 0 && s[j - 1] == c) && !(j + 1 < n && s[j + 1] == c) {
            return j;
        }
        j = j + 1;
    }
    j
}

impl MD037 {
    /// The code spans of `chars`, as `(start, end)` index pairs.
    pub fn find_code_span_positions(&self, chars: &[char]) -> (r: Vec<(usize, usize)>)
        ensures
            span_view(r@) == code_spans(chars@),
    {
        let ghost s = chars@;
        let n = chars.len();
        let mut spans: Vec<(usize, usize)> = Vec::new();
        let mut i: usize = 0;
        while i < n
            invariant
                n == s.len(),
                s == chars@,
                i <= n,
                span_view(spans@) + code_spans_from(s, i as int) == code_spans(s),
            decreases n - i,
        {
            if chars[i] == '`' {
                proof {
                    lemma_run_fwd(s, i + 1, CharClass::Exactly('`'));
                }
                let e = scan_fwd(chars, i + 1, CharClass::Exactly('`'));
                proof {
                    lemma_closing_run(s, e as int, e - i);
                }
                let ghost before = span_view(spans@);
                match find_closing_run(chars, e, e - i) {
                    Some(c) => {
                        spans.push((i, c));
                        assert(span_view(spans@) == before.push((i as int, c as int)));
                        assert(code_spans_from(s, i as int) == seq![(i as int, c as int)]
                            + code_spans_from(s, c as int));
                        assert(before + code_spans_from(s, i as int) == span_view(spans@)
                            + code_spans_from(s, c as int));
                        i = c;
                    },
                    None => {
                        i = e;
                    },
                }
            } else {
                i = i + 1;
            }
        }
        spans
    }

    /// Whether index `pos` lies in one of the code spans.
    fn is_in_code_span(&self, pos: usize, code_spans: &[(usize, usize)]) -> (b: bool)
        ensures
            b == in_span(pos as int, span_view(code_spans@)),
    {
        let ghost sv = span_view(code_spans@);
        let mut k: usize = 0;
        while k < code_spans.len()
            invariant
                sv == span_view(code_spans@),
                k <= code_spans@.len(),
                forall|m: int| 0 <= m < k ==> !#[trigger] span_covers(sv, m, pos as int),
            decreases code_spans@.len() - k,
        {
            let (a, b) = code_spans[k];
            if a <= pos && pos < b {
                assert(span_covers(sv, k as int, pos as int));
                return true;
            }
            k = k + 1;
        }
        false
    }

    fn report(
        &self,
        num: usize,
        s: &[char],
        i: usize,
        cs: usize,
        ce: usize,
        after: usize,
        marker: &[char],
        blen: usize,
    ) -> (r: Vec<Violation>)
        requires
            i <= cs <= ce <= after <= s@.len(),
            s@.len() <= usize::MAX / 4,
            blen == byte_len(s@),
            blen <= 4 * s@.len(),
        ensures
            r.deep_view() == emphasis_report(num as int, s@, i as int, cs as int, ce as int, after as int, marker@),
    {
        let mut out: Vec<Violation> = Vec::new();
        if cs < ce && (is_whitespace(s[cs]) || is_whitespace(s[ce - 1])) {
            let content = slice_chars(s, cs, ce);
            let fixed = trim_chars(content.as_slice());
            let mut rep: Vec<char> = slice_chars(s, 0, i);
            push_all(&mut rep, marker);
            push_all(&mut rep, fixed.as_slice());
            push_all(&mut rep, marker);
            let rest = slice_chars(s, after, s.len());
            push_all(&mut rep, rest.as_slice());
            rep.push('\n');
            assert(rep@ =~= s@.take(i as int) + marker@ + trimmed(s@.subrange(cs as int, ce as int))
                + marker@ + s@.subrange(after as int, s@.len() as int) + seq!['\n']);
            let fix = new_fix(
                String::from_str("Remove spaces inside emphasis markers"),
                Some(string_of(rep.as_slice())),
                num,
                1,
                num,
                blen + 1,
            );
            let v = new_violation(
                "MD037",
                String::from_str("Spaces inside emphasis markers"),
                num,
                i + 1,
                Severity::Warning,
                Some(fix),
            );
            out.push(v);
            assert(out.deep_view() =~= seq![v.deep_view()]);
        } else {
            assert(out.deep_view() =~= Seq::<ViolationModel>::empty());
        }
        out
    }

    /// The violations for the double marker `marker marker` on one line.
    fn check_pattern(
        &self,
        chars: &[char],
        marker: char,
        line_number: usize,
        code_spans: &[(usize, usize)],
        blen: usize,
    ) -> (r: Vec<Violation>)
        requires
            chars@.len() <= usize::MAX / 4,
            blen == byte_len(chars@),
            blen <= 4 * chars@.len(),
        ensures
            r.deep_view() == double_scan(line_number as int, chars@, span_view(code_spans@), marker, 0),
    {
        let ghost s = chars@;
        let ghost spans = span_view(code_spans@);
        let ghost m = seq![marker, marker];
        let mut mv: Vec<char> = Vec::new();
        mv.push(marker);
        mv.push(marker);
        assert(mv@ == m);
        let n = chars.len();
        let mut out: Vec<Violation> = Vec::new();
        let mut i: usize = 0;
        while i + 2 < n
            invariant
                n == s.len(),
                n <= usize::MAX / 4,
                s == chars@,
                spans == span_view(code_spans@),
                mv@ == m,
                m == seq![marker, marker],
                blen == byte_len(s),
                blen <= 4 * s.len(),
                i <= n,
                out.deep_view() + double_scan(line_number as int, s, spans, marker, i as int)
                    == double_scan(line_number as int, s, spans, marker, 0),
            decreases n - i,
        {
            if self.is_in_code_span(i, code_spans) {
                i = i + 1;
            } else if chars[i] == marker && chars[i + 1] == marker {
                assert(has_at(s, i as int, m)) by {
                    assert(s.subrange(i as int, i + 2) =~= m);
                }
                proof {
                    lemma_first_occ(s, i + 2, m);
                }
                let j = find_chars(chars, i + 2, mv.as_slice());
                if j < n {
                    let v = self.report(line_number, chars, i, i + 2, j, j + 2, mv.as_slice(), blen);
                    let ghost before = out.deep_view();
                    let ghost here = v.deep_view();
                    push_vec(&mut out, v);
                    assert(before + double_scan(line_number as int, s, spans, marker, i as int)
                        == out.deep_view() + double_scan(line_number as int, s, spans, marker, j + 2));
                    i = j + 2;
                } else {
                    i = i + 1;
                }
            } else {
                assert(!has_at(s, i as int, m)) by {
                    if has_at(s, i as int, m) {
                        assert(s.subrange(i as int, i + 2)[0] == m[0]);
                        assert(s.subrange(i as int, i + 2)[1] == m[1]);
                    }
                }
                i = i + 1;
            }
        }
        out
    }

    /// The violations for the single marker `marker` on one line.
    fn check_single_pattern(
        &self,
        chars: &[char],
        marker: char,
        line_number: usize,
        code_spans: &[(usize, usize)],
        blen: usize,
    ) -> (r: Vec<Violation>)
        requires
            chars@.len() <= usize::MAX / 4,
            blen == byte_len(chars@),
            blen <= 4 * chars@.len(),
        ensures
            r.deep_view() == single_scan(line_number as int, chars@, span_view(code_spans@), marker, 0),
    {
        let ghost s = chars@;
        let ghost spans = span_view(code_spans@);
        let mut mv: Vec<char> = Vec::new();
        mv.push(marker);
        assert(mv@ == seq![marker]);
        let n = chars.len();
        let mut out: Vec<Violation> = Vec::new();
        let mut i: usize = 0;
        while i < n
            invariant
                n == s.len(),
                n <= usize::MAX / 4,
                s == chars@,
                spans == span_view(code_spans@),
                mv@ == seq![marker],
                blen == byte_len(s),
                blen <= 4 * s.len(),
                i <= n,
                out.deep_view() + single_scan(line_number as int, s, spans, marker, i as int)
                    == single_scan(line_number as int, s, spans, marker, 0),
            decreases n - i,
        {
            if self.is_in_code_span(i, code_spans) {
                i = i + 1;
            } else if chars[i] == marker {
                if (i > 0 && chars[i - 1] == marker) || (i + 1 < n && chars[i + 1] == marker) {
                    i = i + 1;
                } else {
                    proof {
                        lemma_single_close(s, i + 1, marker);
                    }
                    let j = find_single_close(chars, i + 1, marker);
                    if j < n {
                        let v = self.report(line_number, chars, i, i + 1, j, j + 1, mv.as_slice(), blen);
                        let ghost before = out.deep_view();
                        push_vec(&mut out, v);
                        assert(before + single_scan(line_number as int, s, spans, marker, i as int)
                            == out.deep_view() + single_scan(line_number as int, s, spans, marker, j + 1));
                        i = j + 1;
                    } else {
                        i = i + 1;
                    }
                }
            } else {
                i = i + 1;
            }
        }
        out
    }

    /// The violations on the text of one line.
    fn find_emphasis_violations(&self, line: &[char], line_number: usize) -> (r: Vec<Violation>)
        requires
            line@.len() <= usize::MAX / 4,
        ensures
            r.deep_view() == emphasis_violations(line_number as int, line@),
    {
        let spans = self.find_code_span_positions(line);
        let blen = byte_len_prefix(line, line.len());
        assert(line@.take(line@.len() as int) == line@);
        let mut out = self.check_pattern(line, '*', line_number, spans.as_slice(), blen);
        push_vec(&mut out, self.check_pattern(line, '_', line_number, spans.as_slice(), blen));
        push_vec(&mut out, self.check_single_pattern(line, '*', line_number, spans.as_slice(), blen));
        push_vec(&mut out, self.check_single_pattern(line, '_', line_number, spans.as_slice(), blen));
        out
    }

    /// The rule's identifier.
    pub fn id(&self) -> (r: &'static str)
        ensures
            r@ == "MD037"@,
    {
        "MD037"
    }

    /// The rule's name.
    pub fn name(&self) -> (r: &'static str)
        ensures
            r@ == "no-space-in-emphasis"@,
    {
        "no-space-in-emphasis"
    }

    /// What the rule checks.
    pub fn description(&self) -> (r: &'static str)
        ensures
            r@ == "Spaces inside emphasis markers"@,
    {
        "Spaces inside emphasis markers"
    }

    /// The rule offers fixes.
    pub fn can_fix(&self) -> (b: bool)
        ensures
            b,
    {
        true
    }

    /// Checks a document: fence lines, lines inside fences and indented code
    /// lines are passed over.
    pub fn check(&self, document: &Document) -> (r: Vec<Violation>)
        ensures
            r.deep_view() == multi_line_violations(
                self,
                document.lines_of(),
                Seq::new(
                    document.lines_of().len(),
                    |i: int| fence_state(document.lines_of(), i + 1),
                ),
                0,
            ),
    {
        let flags = fence_flags(document);
        assert(flags@ =~= Seq::new(
            document.lines_of().len(),
            |i: int| fence_state(document.lines_of(), i + 1),
        ));
        check_multi_lines(self, document, &flags)
    }
}

impl MultiLineRule for MD037 {
    open spec fn line_spec(&self, num: int, line: Seq<char>, flag: bool) -> Seq<ViolationModel> {
        md037_line(num, line, flag)
    }

    fn line_check(&self, num: usize, line: &[char], flag: bool) -> (r: Vec<Violation>) {
        if line_starts_fence(line) || flag || lit_at(line, 0, "    ") || (line.len() > 0 && line[0]
            == '\t') {
            return Vec::new();
        }
        self.find_emphasis_violations(line, num)
    }
}

} // verus!
