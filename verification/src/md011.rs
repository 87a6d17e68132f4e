//! MD011: reversed link syntax, `(text)[url]`.
use vstd::prelude::*;
use vstd::string::StringExecFns;
use crate::document::Document;
use crate::fences::{backtick_fence_flags, backtick_fence_state, starts_backtick_fence};
use crate::lines::{check_multi_lines, multi_line_violations, MultiLineRule};
use crate::text::{lemma_run_fwd, push_all, run_fwd, scan_fwd, slice_chars, string_of, CharClass};
use crate::violation::{
    fix_model, new_fix, new_violation, violation_model, Severity, Violation, ViolationModel,
};

verus! {

/// Rule that flags links written with the parentheses and brackets swapped.
pub struct MD011;

/// The reversed link `(text)[url]` that starts at `start`, as the indices of
/// its `)` and its closing `]`.
pub open spec fn reversed_link(s: Seq<char>, start: int) -> Option<(int, int)> {
    if start < 0 || start >= s.len() || s[start] != '(' {
        None
    } else {
        let p = run_fwd(s, start + 1, CharClass::Except(')'));
        if p >= s.len() || p + 1 >= s.len() || s[p + 1] != '[' {
            None
        } else {
            let b = run_fwd(s, p + 2, CharClass::Except(']'));
            if b >= s.len() {
                None
            } else {
                Some((p, b))
            }
        }
    }
}

/// `[text](url)`.
pub open spec fn proper_link(text: Seq<char>, url: Seq<char>) -> Seq<char> {
    seq!['['] + text + "]("@ + url + seq![')']
}

/// The violation for the reversed link at `start` whose `)` is at `p` and
/// whose `]` is at `b`.
pub open spec fn md011_violation(num: int, s: Seq<char>, start: int, p: int, b: int) -> ViolationModel {
    let text = s.subrange(start + 1, p);
    let url = s.subrange(p + 2, b);
    violation_model(
        "MD011"@,
        "Reversed link syntax: ("@ + text + ")["@ + url + "]. Should be: "@ + proper_link(text, url),
        num as usize,
        (start + 1) as usize,
        Severity::Error,
        Some(
            fix_model(
                "Fix reversed link: "@ + proper_link(text, url),
                Some(proper_link(text, url)),
                num as usize,
                (start + 1) as usize,
                num as usize,
                (b + 1) as usize,
            ),
        ),
    )
}

/// The violations MD011 reports on line `num` from index `i` on.
pub open spec fn md011_scan(num: int, s: Seq<char>, i: int) -> Seq<ViolationModel>
    decreases s.len() - i,
{
    if i < 0 || i >= s.len() {
        seq![]
    } else if s[i] == '`' {
        let j = run_fwd(s, i + 1, CharClass::Except('`'));
        proof {
            lemma_run_fwd(s, i + 1, CharClass::Except('`'));
        }
        md011_scan(num, s, if j < s.len() { j + 1 } else { j })
    } else if s[i] == '(' {
        match reversed_link(s, i) {
            Some((p, b)) => {
                proof {
                    lemma_run_fwd(s, i + 1, CharClass::Except(')'));
                    lemma_run_fwd(s, p + 2, CharClass::Except(']'));
                }
                seq![md011_violation(num, s, i, p, b)] + md011_scan(num, s, b)
            },
            None => md011_scan(num, s, i + 1),
        }
    } else {
        md011_scan(num, s, i + 1)
    }
}

/// The violations MD011 reports on line `num`, which `skip` tells to ignore.
pub open spec fn md011_line(num: int, line: Seq<char>, skip: bool) -> Seq<ViolationModel> {
    if skip {
        seq![]
    } else {
        md011_scan(num, line, 0)
    }
}

fn proper_link_chars(text: &[char], url: &[char]) -> (r: Vec<char>)
    ensures
        r@ == proper_link(text@, url@),
{
    let mut r: Vec<char> = Vec::new();
    r.push('[');
    push_all(&mut r, text);
    r.push(']');
    r.push('(');
    push_all(&mut r, url);
    r.push(')');
    proof {
        reveal_strlit("](");
        assert(r@ =~= proper_link(text@, url@));
    }
    r
}

impl MD011 {
    /// The reversed link `(text)[url]` at `start`: its text, its url, `start`
    /// and the index of its closing `]`.
    pub fn parse_reversed_link(&self, chars: &[char], start: usize) -> (r: Option<
        (String, String, usize, usize),
    >)
        ensures
            match reversed_link(chars@, start as int) {
                Some((p, b)) => r matches Some((t, u, a, e)) && t@ == chars@.subrange(
                    start + 1,
                    p,
                ) && u@ == chars@.subrange(p + 2, b) && a == start && e == b,
                None => r is None,
            },
    {
        if start >= chars.len() || chars[start] != '(' {
            return None;
        }
        proof {
            lemma_run_fwd(chars@, start + 1, CharClass::Except(')'));
        }
        let p = scan_fwd(chars, start + 1, CharClass::Except(')'));
        if p >= chars.len() || p + 1 >= chars.len() || chars[p + 1] != '[' {
            return None;
        }
        proof {
            lemma_run_fwd(chars@, p + 2, CharClass::Except(']'));
        }
        let b = scan_fwd(chars, p + 2, CharClass::Except(']'));
        if b >= chars.len() {
            return None;
        }
        let text = slice_chars(chars, start + 1, p);
        let url = slice_chars(chars, p + 2, b);
        Some((string_of(text.as_slice()), string_of(url.as_slice()), start, b))
    }

    fn report(&self, num: usize, s: &[char], start: usize, p: usize, b: usize) -> (v: Violation)
        requires
            reversed_link(s@, start as int) == Some((p as int, b as int)),
            s@.len() <= usize::MAX / 4,
        ensures
            v.deep_view() == md011_violation(num as int, s@, start as int, p as int, b as int),
    {
        proof {
            lemma_run_fwd(s@, start + 1, CharClass::Except(')'));
            lemma_run_fwd(s@, p + 2, CharClass::Except(']'));
        }
        let text = slice_chars(s, start + 1, p);
        let url = slice_chars(s, p + 2, b);
        let proper = proper_link_chars(text.as_slice(), url.as_slice());
        let mut message = String::from_str("Reversed link syntax: (");
        message.append(string_of(text.as_slice()).as_str());
        message.append(")[");
        message.append(string_of(url.as_slice()).as_str());
        message.append("]. Should be: ");
        message.append(string_of(proper.as_slice()).as_str());
        let mut description = String::from_str("Fix reversed link: ");
        description.append(string_of(proper.as_slice()).as_str());
        let fix = new_fix(description, Some(string_of(proper.as_slice())), num, start + 1, num, b + 1);
        new_violation("MD011", message, num, start + 1, Severity::Error, Some(fix))
    }

    /// The rule's identifier.
    pub fn id(&self) -> (r: &'static str)
        ensures
            r@ == "MD011"@,
    {
        "MD011"
    }

    /// The rule's name.
    pub fn name(&self) -> (r: &'static str)
        ensures
            r@ == "no-reversed-links"@,
    {
        "no-reversed-links"
    }

    /// What the rule checks.
    pub fn description(&self) -> (r: &'static str)
        ensures
            r@ == "Reversed link syntax"@,
    {
        "Reversed link syntax"
    }

    /// Checks a document.
    pub fn check(&self, document: &Document) -> (r: Vec<Violation>)
        ensures
            r.deep_view() == multi_line_violations(
                self,
                document.lines_of(),
                Seq::new(
                    document.lines_of().len(),
                    |i: int| starts_backtick_fence(document.lines_of()[i]) || backtick_fence_state(
                        document.lines_of(),
                        i,
                    ),
                ),
                0,
            ),
    {
        let flags = backtick_fence_flags(document);
        assert(flags@ =~= Seq::new(
            document.lines_of().len(),
            |i: int| starts_backtick_fence(document.lines_of()[i]) || backtick_fence_state(
                document.lines_of(),
                i,
            ),
        ));
        check_multi_lines(self, document, &flags)
    }
}

impl MultiLineRule for MD011 {
    open spec fn line_spec(&self, num: int, line: Seq<char>, flag: bool) -> Seq<ViolationModel> {
        md011_line(num, line, flag)
    }

    fn line_check(&self, num: usize, line: &[char], flag: bool) -> (r: Vec<Violation>) {
        let mut out: Vec<Violation> = Vec::new();
        if flag {
            return out;
        }
        let ghost s = line@;
        let n = line.len();
        let mut i: usize = 0;
        while i < n
            invariant
                n == s.len(),
                n <= usize::MAX / 4,
                s == line@,
                i <= n,
                out.deep_view() + md011_scan(num as int, s, i as int) == md011_scan(num as int, s, 0),
            decreases n - i,
        {
            if line[i] == '`' {
                proof {
                    lemma_run_fwd(s, i + 1, CharClass::Except('`'));
                }
                let j = scan_fwd(line, i + 1, CharClass::Except('`'));
                i = if j < n { j + 1 } else { j };
            } else if line[i] == '(' {
                match self.parse_reversed_link(line, i) {
                    Some((_, _, start, b)) => {
                        let p = scan_fwd(line, i + 1, CharClass::Except(')'));
                        proof {
                            lemma_run_fwd(s, i + 1, CharClass::Except(')'));
                            lemma_run_fwd(s, p + 2, CharClass::Except(']'));
                        }
                        let v = self.report(num, line, i, p, b);
                        let ghost before = out.deep_view();
                        out.push(v);
                        assert(out.deep_view() == before.push(v.deep_view()));
                        assert(before + md011_scan(num as int, s, i as int) == out.deep_view()
                            + md011_scan(num as int, s, b as int));
                        i = b;
                    },
                    None => {
                        i = i + 1;
                    },
                }
            } else {
                i = i + 1;
            }
        }
        out
    }
}

} // verus!
