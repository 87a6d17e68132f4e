//! MD038: spaces just inside code spans, such as `` ` code ` ``.
use vstd::prelude::*;
use vstd::string::StringExecFns;
use crate::document::Document;
use crate::fences::{line_starts_fence, starts_fence};
use crate::lines::{check_multi_lines, multi_line_violations, MultiLineRule};
use crate::text::{
    blank_line, byte_len, byte_len_prefix, contains_seq, find_lit, first_occ, is_blank,
    is_whitespace, is_ws, lemma_run_fwd, push_all, run_fwd, scan_fwd, slice_chars, string_of,
    trim_chars, trimmed, CharClass,
};
use crate::violation::{
    fix_model, new_fix, new_violation, violation_model, Severity, Violation, ViolationModel,
};

verus! {

/// Rule that flags code spans whose content starts or ends with whitespace.
pub struct MD038;

/// Start of the first run of exactly `cnt` backticks at or after `i` (while
/// such a run still fits), or -1.
pub open spec fn closing_backticks(s: Seq<char>, i: int, cnt: int) -> int
    decreases if 0 <= i < s.len() { s.len() - i } else { 0 },
{
    if i < 0 || i >= s.len() || i + cnt > s.len() {
        -1
    } else if s[i] == '`' {
        let j = run_fwd(s, i + 1, CharClass::Exactly('`'));
        proof {
            lemma_run_fwd(s, i + 1, CharClass::Exactly('`'));
        }
        if j - i == cnt {
            i
        } else {
            closing_backticks(s, j, cnt)
        }
    } else {
        closing_backticks(s, i + 1, cnt)
    }
}

pub proof fn lemma_closing_backticks(s: Seq<char>, i: int, cnt: int)
    requires
        0 <= i <= s.len(),
    ensures
        closing_backticks(s, i, cnt) == -1 || (i <= closing_backticks(s, i, cnt)
            && closing_backticks(s, i, cnt) + cnt <= s.len()),
    decreases s.len() - i,
{
    if i < s.len() && i + cnt <= s.len() {
        if s[i] == '`' {
            let j = run_fwd(s, i + 1, CharClass::Exactly('`'));
            lemma_run_fwd(s, i + 1, CharClass::Exactly('`'));
            if j - i != cnt {
                lemma_closing_backticks(s, j, cnt);
            }
        } else {
            lemma_closing_backticks(s, i + 1, cnt);
        }
    }
}

/// `c` holds a backtick.
pub open spec fn has_backtick(c: Seq<char>) -> bool {
    run_fwd(c, 0, CharClass::Except('`')) < c.len()
}

/// The content of a code span has whitespace to remove at an end: it is
/// neither empty, nor all whitespace, nor holding a backtick, and starts or
/// ends with whitespace.
pub open spec fn unnecessary_spaces(c: Seq<char>) -> bool {
    &&& c.len() > 0
    &&& !is_blank(c)
    &&& !has_backtick(c)
    &&& (is_ws(c[0]) || is_ws(c[c.len() - 1]))
}

/// The content a fix puts in a code span: a content with a backtick stays as
/// it is, any other is trimmed.
pub open spec fn fixed_content(c: Seq<char>) -> Seq<char> {
    if has_backtick(c) { c } else { trimmed(c) }
}

/// `n` backticks.
pub open spec fn backticks(n: nat) -> Seq<char> {
    Seq::new(n, |k: int| '`')
}

/// The violations MD038 reports on line `num` from index `i` on. A backtick
/// right after text closes a span of an earlier line and is passed over; an
/// opening run without a closing run of the same length ends the scan.
pub open spec fn md038_scan(num: int, s: Seq<char>, i: int) -> Seq<ViolationModel>
    decreases if 0 <= i < s.len() { s.len() - i } else { 0 },
{
    if i < 0 || i >= s.len() {
        seq![]
    } else if s[i] == '`' {
        let e = run_fwd(s, i + 1, CharClass::Exactly('`'));
        proof {
            lemma_run_fwd(s, i + 1, CharClass::Exactly('`'));
            lemma_closing_backticks(s, e, e - i);
        }
        if i > 0 && !is_ws(s[i - 1]) && s[i - 1] != '`' {
            md038_scan(num, s, e)
        } else {
            let cnt = e - i;
            let c = closing_backticks(s, e, cnt);
            if c < 0 {
                seq![]
            } else {
                let content = s.subrange(e, c);
                (if e < c && unnecessary_spaces(content) {
                    seq![
                        violation_model(
                            "MD038"@,
                            "Spaces inside code span elements"@,
                            num as usize,
                            (i + 1) as usize,
                            Severity::Warning,
                            Some(
                                fix_model(
                                    "Remove spaces inside code span"@,
                                    Some(
                                        s.take(i) + backticks(cnt as nat) + fixed_content(content)
                                            + backticks(cnt as nat) + s.subrange(
                                            c + cnt,
                                            s.len() as int,
                                        ) + seq!['\n'],
                                    ),
                                    num as usize,
                                    1,
                                    num as usize,
                                    (byte_len(s) + 1) as usize,
                                ),
                            ),
                        ),
                    ]
                } else {
                    seq![]
                }) + md038_scan(num, s, c + cnt)
            }
        }
    } else {
        md038_scan(num, s, i + 1)
    }
}

/// What reading `line` does, given whether a fence and an HTML comment are
/// open before it: whether the line is skipped, and whether a fence and a
/// comment are open after it.
pub open spec fn line_step(fenced: bool, comment: bool, line: Seq<char>) -> (bool, bool, bool) {
    if starts_fence(line) {
        (true, !fenced, comment)
    } else if fenced {
        (true, fenced, comment)
    } else if comment {
        (true, fenced, !contains_seq(line, "-->"@))
    } else if contains_seq(line, "<!--"@) {
        (
            true,
            fenced,
            !contains_seq(line, "-->"@) || first_occ(line, 0, "<!--"@) > first_occ(line, 0, "-->"@),
        )
    } else {
        (false, fenced, comment)
    }
}

/// Whether a fence and an HTML comment are open after lines `0..i`.
pub open spec fn md038_state(lines: Seq<Seq<char>>, i: int) -> (bool, bool)
    decreases i,
{
    if i <= 0 {
        (false, false)
    } else {
        let st = md038_state(lines, i - 1);
        let r = line_step(st.0, st.1, lines[i - 1]);
        (r.1, r.2)
    }
}

/// Line `i` is skipped: a fence line, or inside a fence or an HTML comment.
pub open spec fn md038_skip(lines: Seq<Seq<char>>, i: int) -> bool {
    let st = md038_state(lines, i);
    line_step(st.0, st.1, lines[i]).0
}

fn backtick_run(n: usize) -> (r: Vec<char>)
    ensures
        r@ == backticks(n as nat),
{
    let mut r: Vec<char> = Vec::new();
    for k in 0..n
        invariant
            r@ == backticks(k as nat),
    {
        r.push('`');
        assert(r@ =~= backticks((k + 1) as nat));
    }
    r
}

fn contains_lit(s: &[char], p: &str) -> (b: bool)
    ensures
        b == contains_seq(s@, p@),
{
    find_lit(s, 0, p) < s.len()
}

impl MD038 {
    /// Start of the closing run of exactly `count` backticks.
    fn find_closing_backticks(&self, chars: &[char], start: usize, count: usize) -> (r: Option<usize>)
        requires
            start <= chars@.len(),
        ensures
            match r {
                Some(c) => c as int == closing_backticks(chars@, start as int, count as int),
                None => closing_backticks(chars@, start as int, count as int) == -1,
            },
    {
        let n = chars.len();
        let mut i = start;
        while i < n && count <= n - i
            invariant
                n == chars@.len(),
                start <= i <= n,
                closing_backticks(chars@, start as int, count as int) == closing_backticks(
                    chars@,
                    i as int,
                    count as int,
                ),
            decreases n - i,
        {
            if chars[i] == '`' {
                proof {
                    lemma_run_fwd(chars@, i + 1, CharClass::Exactly('`'));
                }
                let j = scan_fwd(chars, i + 1, CharClass::Exactly('`'));
                if j - i == count {
                    return Some(i);
                }
                i = j;
            } else {
                i = i + 1;
            }
        }
        None
    }

    /// Whether a code span's content has whitespace to remove at an end.
    fn has_unnecessary_spaces(&self, content: &[char]) -> (b: bool)
        ensures
            b == unnecessary_spaces(content@),
    {
        if content.len() == 0 {
            return false;
        }
        if blank_line(content) {
            return false;
        }
        if scan_fwd(content, 0, CharClass::Except('`')) < content.len() {
            return false;
        }
        let lead = is_whitespace(content[0]);
        let trail = is_whitespace(content[content.len() - 1]);
        if content.len() >= 2 {
            if (lead && is_whitespace(content[1])) || (trail && is_whitespace(
                content[content.len() - 2],
            )) {
                return true;
            }
        }
        lead || trail
    }

    /// The content a fix puts in a code span.
    fn fix_code_span_content(&self, content: &[char]) -> (r: Vec<char>)
        ensures
            r@ == fixed_content(content@),
    {
        if scan_fwd(content, 0, CharClass::Except('`')) < content.len() {
            return slice_chars(content, 0, content.len());
        }
        trim_chars(content)
    }

    /// For each line, whether it is skipped.
    fn get_code_block_ranges(&self, document: &Document) -> (f: Vec<bool>)
        ensures
            f@.len() == document.lines_of().len(),
            forall|i: int| 0 <= i < f@.len() ==> #[trigger] f@[i] == md038_skip(document.lines_of(), i),
    {
        let ghost lines = document.lines_of();
        let n = document.line_count();
        let mut f: Vec<bool> = Vec::new();
        let mut fenced = false;
        let mut comment = false;
        for i in 0..n
            invariant
                n == lines.len(),
                lines == document.lines_of(),
                f@.len() == i,
                (fenced, comment) == md038_state(lines, i as int),
                forall|k: int| 0 <= k < f@.len() ==> #[trigger] f@[k] == md038_skip(lines, k),
        {
            let line = document.line(i);
            let ghost r = line_step(fenced, comment, line@);
            if line_starts_fence(line) {
                fenced = !fenced;
                f.push(true);
            } else if fenced {
                f.push(true);
            } else if comment {
                f.push(true);
                if contains_lit(line, "-->") {
                    comment = false;
                }
            } else if contains_lit(line, "<!--") {
                f.push(true);
                if !contains_lit(line, "-->") || find_lit(line, 0, "<!--") > find_lit(line, 0, "-->") {
                    comment = true;
                }
            } else {
                f.push(false);
            }
            assert((fenced, comment) == (r.1, r.2));
        }
        f
    }

    fn report(&self, num: usize, s: &[char], i: usize, e: usize, c: usize) -> (v: Violation)
        requires
            i < e <= c,
            c + (e - i) <= s@.len(),
            s@.len() <= usize::MAX / 4,
        ensures
            v.deep_view() == violation_model(
                "MD038"@,
                "Spaces inside code span elements"@,
                num,
                (i + 1) as usize,
                Severity::Warning,
                Some(
                    fix_model(
                        "Remove spaces inside code span"@,
                        Some(
                            s@.take(i as int) + backticks((e - i) as nat) + fixed_content(
                                s@.subrange(e as int, c as int),
                            ) + backticks((e - i) as nat) + s@.subrange(c + (e - i), s@.len() as int)
                                + seq!['\n'],
                        ),
                        num,
                        1,
                        num,
                        (byte_len(s@) + 1) as usize,
                    ),
                ),
            ),
    {
        let cnt = e - i;
        let ticks = backtick_run(cnt);
        let content = slice_chars(s, e, c);
        let fixed = self.fix_code_span_content(content.as_slice());
        let mut rep = slice_chars(s, 0, i);
        push_all(&mut rep, ticks.as_slice());
        push_all(&mut rep, fixed.as_slice());
        push_all(&mut rep, ticks.as_slice());
        let rest = slice_chars(s, c + cnt, s.len());
        push_all(&mut rep, rest.as_slice());
        rep.push('\n');
        assert(rep@ =~= s@.take(i as int) + backticks(cnt as nat) + fixed_content(
            s@.subrange(e as int, c as int),
        ) + backticks(cnt as nat) + s@.subrange(c + cnt, s@.len() as int) + seq!['\n']);
        let blen = byte_len_prefix(s, s.len());
        assert(s@.take(s@.len() as int) == s@);
        let fix = new_fix(
            String::from_str("Remove spaces inside code span"),
            Some(string_of(rep.as_slice())),
            num,
            1,
            num,
            blen + 1,
        );
        new_violation(
            "MD038",
            String::from_str("Spaces inside code span elements"),
            num,
            i + 1,
            Severity::Warning,
            Some(fix),
        )
    }

    /// The rule's identifier.
    pub fn id(&self) -> (r: &'static str)
        ensures
            r@ == "MD038"@,
    {
        "MD038"
    }

    /// The rule's name.
    pub fn name(&self) -> (r: &'static str)
        ensures
            r@ == "no-space-in-code"@,
    {
        "no-space-in-code"
    }

    /// What the rule checks.
    pub fn description(&self) -> (r: &'static str)
        ensures
            r@ == "Spaces inside code span elements"@,
    {
        "Spaces inside code span elements"
    }

    /// The rule offers fixes.
    pub fn can_fix(&self) -> (b: bool)
        ensures
            b,
    {
        true
    }

    /// Checks a document: lines of fences and HTML comments are passed over.
    pub fn check(&self, document: &Document) -> (r: Vec<Violation>)
        ensures
            r.deep_view() == multi_line_violations(
                self,
                document.lines_of(),
                Seq::new(document.lines_of().len(), |i: int| md038_skip(document.lines_of(), i)),
                0,
            ),
    {
        let flags = self.get_code_block_ranges(document);
        assert(flags@ =~= Seq::new(
            document.lines_of().len(),
            |i: int| md038_skip(document.lines_of(), i),
        ));
        check_multi_lines(self, document, &flags)
    }
}

impl MultiLineRule for MD038 {
    open spec fn line_spec(&self, num: int, line: Seq<char>, flag: bool) -> Seq<ViolationModel> {
        if flag {
            seq![]
        } else {
            md038_scan(num, line, 0)
        }
    }

    fn line_check(&self, num: usize, line: &[char], flag: bool) -> (r: Vec<Violation>) {
        let mut out: Vec<Violation> = Vec::new();
        if flag {
            return out;
        }
        let ghost s = line@;
        let n = line.len();
        let mut i: usize = 0;
        while i < n
            invariant
                n == s.len(),
                n <= usize::MAX / 4,
                s == line@,
                i <= n,
                out.deep_view() + md038_scan(num as int, s, i as int) == md038_scan(num as int, s, 0),
            decreases n - i,
        {
            if line[i] == '`' {
                proof {
                    lemma_run_fwd(s, i + 1, CharClass::Exactly('`'));
                }
                let e = scan_fwd(line, i + 1, CharClass::Exactly('`'));
                if i > 0 && !is_whitespace(line[i - 1]) && line[i - 1] != '`' {
                    i = e;
                } else {
                    proof {
                        lemma_closing_backticks(s, e as int, e - i);
                    }
                    match self.find_closing_backticks(line, e, e - i) {
                        Some(c) => {
                            let cnt = e - i;
                            let ghost before = out.deep_view();
                            if e < c {
                                let content = slice_chars(line, e, c);
                                if self.has_unnecessary_spaces(content.as_slice()) {
                                    let v = self.report(num, line, i, e, c);
                                    out.push(v);
                                    assert(out.deep_view() == before.push(v.deep_view()));
                                }
                            }
                            assert(before + md038_scan(num as int, s, i as int) == out.deep_view()
                                + md038_scan(num as int, s, c + cnt));
                            i = c + cnt;
                        },
                        None => {
                            i = n;
                        },
                    }
                }
            } else {
                i = i + 1;
            }
        }
        out
    }
}

} // verus!
