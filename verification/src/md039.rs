//! MD039: spaces just inside link text, such as `[ text ](url)`.
use vstd::prelude::*;
use vstd::string::StringExecFns;
use crate::document::Document;
use crate::fences::{fence_flags, fence_state, line_starts_fence, starts_fence};
use crate::lines::{check_multi_lines, multi_line_violations, MultiLineRule};
use crate::text::{
    byte_len, byte_len_prefix, is_whitespace, is_ws, push_all, slice_chars, string_of, trim_chars,
    trimmed,
};
use crate::violation::{
    fix_model, new_fix, new_violation, violation_model, Severity, Violation, ViolationModel,
};

verus! {

/// Rule that flags link text that starts or ends with whitespace.
pub struct MD039;

/// Index of the `]` that closes a bracket, scanning from `i` with `depth`
/// brackets open; a backslash escapes the next character. -1 when the line
/// ends first.
pub open spec fn closing_bracket(s: Seq<char>, i: int, depth: int) -> int
    decreases if 0 <= i < s.len() { s.len() - i } else { 0 },
{
    if i < 0 || i >= s.len() || depth <= 0 {
        -1
    } else if s[i] == '[' {
        closing_bracket(s, i + 1, depth + 1)
    } else if s[i] == ']' {
        if depth == 1 {
            i
        } else {
            closing_bracket(s, i + 1, depth - 1)
        }
    } else if s[i] == '\\' {
        closing_bracket(s, i + 2, depth)
    } else {
        closing_bracket(s, i + 1, depth)
    }
}

pub proof fn lemma_closing_bracket(s: Seq<char>, i: int, depth: int)
    requires
        0 <= i,
    ensures
        closing_bracket(s, i, depth) == -1 || (i <= closing_bracket(s, i, depth) < s.len()),
    decreases if 0 <= i < s.len() { s.len() - i } else { 0 },
{
    if i < s.len() && depth > 0 {
        if s[i] == '[' {
            lemma_closing_bracket(s, i + 1, depth + 1);
        } else if s[i] == ']' {
            if depth != 1 {
                lemma_closing_bracket(s, i + 1, depth - 1);
            }
        } else if s[i] == '\\' {
            lemma_closing_bracket(s, i + 2, depth);
        } else {
            lemma_closing_bracket(s, i + 1, depth);
        }
    }
}

/// Link text with whitespace at an end.
pub open spec fn spaced_text(t: Seq<char>) -> bool {
    t.len() > 0 && (is_ws(t[0]) || is_ws(t[t.len() - 1]))
}

/// The violations MD039 reports on line `num` from index `i` on: a bracketed
/// text (not an image's) followed by `(` or `[` whose text has whitespace at
/// an end.
pub open spec fn md039_scan(num: int, s: Seq<char>, i: int) -> Seq<ViolationModel>
    decreases if 0 <= i < s.len() { s.len() - i } else { 0 },
{
    if i < 0 || i >= s.len() {
        seq![]
    } else if s[i] == '[' && !(i > 0 && s[i - 1] == '!') {
        let e = closing_bracket(s, i + 1, 1);
        proof {
            lemma_closing_bracket(s, i + 1, 1);
        }
        if e < 0 {
            md039_scan(num, s, i + 1)
        } else {
            let text = s.subrange(i + 1, e);
            (if e + 1 < s.len() && (s[e + 1] == '(' || s[e + 1] == '[') && spaced_text(text) {
                seq![
                    violation_model(
                        "MD039"@,
                        "Spaces inside link text"@,
                        num as usize,
                        (i + 1) as usize,
                        Severity::Warning,
                        Some(
                            fix_model(
                                "Remove spaces inside link text"@,
                                Some(
                                    s.take(i) + seq!['['] + trimmed(text) + seq![']'] + s.subrange(
                                        e + 1,
                                        s.len() as int,
                                    ) + seq!['\n'],
                                ),
                                num as usize,
                                1,
                                num as usize,
                                (byte_len(s) + 1) as usize,
                            ),
                        ),
                    ),
                ]
            } else {
                seq![]
            }) + md039_scan(num, s, e + 1)
        }
    } else {
        md039_scan(num, s, i + 1)
    }
}

impl MD039 {
    /// Index of the `]` that closes the bracket opened before `start`.
    fn find_closing_bracket(&self, chars: &[char], start: usize) -> (r: Option<usize>)
        requires
            chars@.len() <= usize::MAX / 4,
        ensures
            match r {
                Some(e) => e as int == closing_bracket(chars@, start as int, 1),
                None => closing_bracket(chars@, start as int, 1) == -1,
            },
    {
        let n = chars.len();
        if start >= n {
            return None;
        }
        let mut depth: usize = 1;
        let mut i = start;
        while i < n
            invariant
                n == chars@.len(),
                n <= usize::MAX / 4,
                start <= i <= n,
                1 <= depth <= i - start + 1,
                closing_bracket(chars@, start as int, 1) == closing_bracket(chars@, i as int, depth as int),
            decreases n - i,
        {
            let c = chars[i];
            if c == '[' {
                depth = depth + 1;
                i = i + 1;
            } else if c == ']' {
                if depth == 1 {
                    return Some(i);
                }
                depth = depth - 1;
                i = i + 1;
            } else if c == '\\' {
                if n - i < 2 {
                    assert(closing_bracket(chars@, i + 2, depth as int) == -1);
                    return None;
                }
                i = i + 2;
            } else {
                i = i + 1;
            }
        }
        None
    }

    /// Whether link text has whitespace at an end.
    fn has_unnecessary_spaces(&self, link_text: &[char]) -> (b: bool)
        ensures
            b == spaced_text(link_text@),
    {
        if link_text.len() == 0 {
            return false;
        }
        is_whitespace(link_text[0]) || is_whitespace(link_text[link_text.len() - 1])
    }

    /// The link text without whitespace at its ends.
    fn fix_link_text(&self, link_text: &[char]) -> (r: Vec<char>)
        ensures
            r@ == trimmed(link_text@),
    {
        trim_chars(link_text)
    }

    fn report(&self, num: usize, s: &[char], i: usize, e: usize) -> (v: Violation)
        requires
            i < e < s@.len(),
            s@.len() <= usize::MAX / 4,
        ensures
            v.deep_view() == violation_model(
                "MD039"@,
                "Spaces inside link text"@,
                num,
                (i + 1) as usize,
                Severity::Warning,
                Some(
                    fix_model(
                        "Remove spaces inside link text"@,
                        Some(
                            s@.take(i as int) + seq!['['] + trimmed(s@.subrange(i + 1, e as int))
                                + seq![']'] + s@.subrange(e + 1, s@.len() as int) + seq!['\n'],
                        ),
                        num,
                        1,
                        num,
                        (byte_len(s@) + 1) as usize,
                    ),
                ),
            ),
    {
        let text = slice_chars(s, i + 1, e);
        let fixed = self.fix_link_text(text.as_slice());
        let mut rep = slice_chars(s, 0, i);
        rep.push('[');
        push_all(&mut rep, fixed.as_slice());
        rep.push(']');
        let rest = slice_chars(s, e + 1, s.len());
        push_all(&mut rep, rest.as_slice());
        rep.push('\n');
        assert(rep@ =~= s@.take(i as int) + seq!['['] + trimmed(s@.subrange(i + 1, e as int))
            + seq![']'] + s@.subrange(e + 1, s@.len() as int) + seq!['\n']);
        let blen = byte_len_prefix(s, s.len());
        assert(s@.take(s@.len() as int) == s@);
        let fix = new_fix(
            String::from_str("Remove spaces inside link text"),
            Some(string_of(rep.as_slice())),
            num,
            1,
            num,
            blen + 1,
        );
        new_violation(
            "MD039",
            String::from_str("Spaces inside link text"),
            num,
            i + 1,
            Severity::Warning,
            Some(fix),
        )
    }

    /// The rule's identifier.
    pub fn id(&self) -> (r: &'static str)
        ensures
            r@ == "MD039"@,
    {
        "MD039"
    }

    /// The rule's name.
    pub fn name(&self) -> (r: &'static str)
        ensures
            r@ == "no-space-in-links"@,
    {
        "no-space-in-links"
    }

    /// What the rule checks.
    pub fn description(&self) -> (r: &'static str)
        ensures
            r@ == "Spaces inside link text"@,
    {
        "Spaces inside link text"
    }

    /// The rule offers fixes.
    pub fn can_fix(&self) -> (b: bool)
        ensures
            b,
    {
        true
    }

    /// Checks a document: fence lines and lines inside fences are passed over.
    pub fn check(&self, document: &Document) -> (r: Vec<Violation>)
        ensures
            r.deep_view() == multi_line_violations(
                self,
                document.lines_of(),
                Seq::new(
                    document.lines_of().len(),
                    |i: int| fence_state(document.lines_of(), i + 1),
                ),
                0,
            ),
    {
        let flags = fence_flags(document);
        assert(flags@ =~= Seq::new(
            document.lines_of().len(),
            |i: int| fence_state(document.lines_of(), i + 1),
        ));
        check_multi_lines(self, document, &flags)
    }
}

impl MultiLineRule for MD039 {
    open spec fn line_spec(&self, num: int, line: Seq<char>, flag: bool) -> Seq<ViolationModel> {
        if starts_fence(line) || flag {
            seq![]
        } else {
            md039_scan(num, line, 0)
        }
    }

    fn line_check(&self, num: usize, line: &[char], flag: bool) -> (r: Vec<Violation>) {
        let mut out: Vec<Violation> = Vec::new();
        if line_starts_fence(line) || flag {
            return out;
        }
        let ghost s = line@;
        let n = line.len();
        let mut i: usize = 0;
        while i < n
            invariant
                n == s.len(),
                n <= usize::MAX / 4,
                s == line@,
                i <= n,
                out.deep_view() + md039_scan(num as int, s, i as int) == md039_scan(num as int, s, 0),
            decreases n - i,
        {
            if line[i] == '[' && !(i > 0 && line[i - 1] == '!') {
                proof {
                    lemma_closing_bracket(s, i + 1, 1);
                }
                match self.find_closing_bracket(line, i + 1) {
                    Some(e) => {
                        let ghost before = out.deep_view();
                        let text = slice_chars(line, i + 1, e);
                        if e + 1 < n && (line[e + 1] == '(' || line[e + 1] == '[')
                            && self.has_unnecessary_spaces(text.as_slice()) {
                            let v = self.report(num, line, i, e);
                            out.push(v);
                            assert(out.deep_view() == before.push(v.deep_view()));
                        }
                        assert(before + md039_scan(num as int, s, i as int) == out.deep_view()
                            + md039_scan(num as int, s, e + 1));
                        i = e + 1;
                    },
                    None => {
                        i = i + 1;
                    },
                }
            } else {
                i = i + 1;
            }
        }
        out
    }
}

} // verus!
