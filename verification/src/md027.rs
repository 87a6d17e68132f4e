//! MD027: multiple spaces after a blockquote symbol.
use vstd::prelude::*;
use vstd::string::StringExecFns;
use crate::document::Document;
use crate::fences::{line_starts_fence, starts_fence};
use crate::lines::{check_multi_lines, multi_line_violations, MultiLineRule};
use crate::text::{
    byte_len, byte_len_prefix, decimal, has_at, lemma_run_fwd, lit_at, push_all, run_fwd, scan_fwd,
    skip_ws, skip_ws_from, slice_chars, string_of, trim_chars, trimmed, CharClass,
};
use crate::violation::{
    append_decimal, fix_model, new_fix, new_violation, violation_model, Severity, Violation,
    ViolationModel,
};

verus! {

/// Rule that flags more than one space after `>`.
pub struct MD027;

/// The line starts (after whitespace) with `>`.
pub open spec fn is_quote_line(line: Seq<char>) -> bool {
    let st = skip_ws_from(line, 0);
    st < line.len() && line[st] == '>'
}

/// The quoted content of the line, past its `>` markers, spaces and
/// whitespace, starts with a code fence.
pub open spec fn quote_starts_fence(line: Seq<char>) -> bool {
    let a = run_fwd(line, skip_ws_from(line, 0), CharClass::Exactly('>'));
    let b = run_fwd(line, a, CharClass::Exactly(' '));
    let c = skip_ws_from(line, b);
    has_at(line, c, "```"@) || has_at(line, c, "~~~"@)
}

/// Whether a fence is open once lines `0..i` are read.
pub open spec fn md027_state(lines: Seq<Seq<char>>, i: int) -> bool
    decreases i,
{
    if i <= 0 {
        false
    } else {
        let l = lines[i - 1];
        let prev = md027_state(lines, i - 1);
        if is_quote_line(l) {
            prev != quote_starts_fence(l)
        } else {
            prev != starts_fence(l)
        }
    }
}

/// Whether MD027 skips line `i`: it is no quote line, or lies in a fence.
pub open spec fn md027_skip(lines: Seq<Seq<char>>, i: int) -> bool {
    !is_quote_line(lines[i]) || md027_state(lines, i + 1)
}

/// The violation for the `>` at `gt`, followed by whitespace up to `e`.
pub open spec fn md027_violation(num: int, s: Seq<char>, gt: int, e: int) -> ViolationModel {
    let wc = (e - gt - 1) as nat;
    let after = s.subrange(e, s.len() as int);
    let nested = e < s.len() && s[e] == '>';
    let fixed = s.take(gt + 1) + (if trimmed(after).len() > 0 || nested { seq![' '] } else { seq![] })
        + after;
    let fixed = if fixed.len() > 0 && fixed.last() == '\n' { fixed } else { fixed.push('\n') };
    violation_model(
        "MD027"@,
        "Multiple spaces after blockquote symbol: found "@ + decimal(wc)
            + " whitespace characters, expected 1"@,
        num as usize,
        (gt + 2) as usize,
        Severity::Warning,
        Some(
            fix_model(
                "Replace "@ + decimal(wc) + " spaces with 1 space after blockquote symbol"@,
                Some(fixed),
                num as usize,
                1,
                num as usize,
                (byte_len(s) + 1) as usize,
            ),
        ),
    )
}

/// The violations for the `>` markers of line `num` from index `pos` on.
pub open spec fn md027_scan(num: int, s: Seq<char>, pos: int) -> Seq<ViolationModel>
    decreases s.len() - pos,
{
    if pos < 0 || pos >= s.len() || s[pos] != '>' {
        seq![]
    } else {
        let e = run_fwd(s, pos + 1, CharClass::Whitespace);
        let tab = run_fwd(s, pos + 1, CharClass::Except('\t')) < e;
        let nested = e < s.len() && s[e] == '>';
        proof {
            lemma_run_fwd(s, pos + 1, CharClass::Whitespace);
        }
        (if e - pos - 1 >= 2 || tab {
            seq![md027_violation(num, s, pos, e)]
        } else {
            seq![]
        }) + (if nested { md027_scan(num, s, e) } else { seq![] })
    }
}

/// The violations MD027 reports on line `num`.
pub open spec fn md027_line(num: int, line: Seq<char>, skip: bool) -> Seq<ViolationModel> {
    if skip {
        seq![]
    } else {
        md027_scan(num, line, skip_ws_from(line, 0))
    }
}

fn quote_starts_fence_exec(line: &[char]) -> (b: bool)
    ensures
        b == quote_starts_fence(line@),
{
    let a = scan_fwd(line, skip_ws(line, 0), CharClass::Exactly('>'));
    let b = scan_fwd(line, a, CharClass::Exactly(' '));
    let c = skip_ws(line, b);
    lit_at(line, c, "```") || lit_at(line, c, "~~~")
}

fn md027_flags(document: &Document) -> (f: Vec<bool>)
    ensures
        f@.len() == document.lines_of().len(),
        forall|i: int| 0 <= i < f@.len() ==> #[trigger] f@[i] == md027_skip(document.lines_of(), i),
{
    let ghost lines = document.lines_of();
    let n = document.line_count();
    let mut f: Vec<bool> = Vec::new();
    let mut open = false;
    for i in 0..n
        invariant
            n == lines.len(),
            lines == document.lines_of(),
            f@.len() == i,
            open == md027_state(lines, i as int),
            forall|k: int| 0 <= k < f@.len() ==> #[trigger] f@[k] == md027_skip(lines, k),
    {
        let line = document.line(i);
        let st = skip_ws(line, 0);
        let quote = st < line.len() && line[st] == '>';
        if quote {
            if quote_starts_fence_exec(line) {
                open = !open;
            }
        } else if line_starts_fence(line) {
            open = !open;
        }
        f.push(!quote || open);
    }
    f
}

impl MD027 {
    fn report(&self, num: usize, s: &[char], gt: usize, e: usize) -> (v: Violation)
        requires
            gt < e <= s@.len(),
            s@.len() <= usize::MAX / 4,
        ensures
            v.deep_view() == md027_violation(num as int, s@, gt as int, e as int),
    {
        let wc = e - gt - 1;
        let after = slice_chars(s, e, s.len());
        let nested = e < s.len() && s[e] == '>';
        let mut fixed = slice_chars(s, 0, gt + 1);
        if trim_chars(after.as_slice()).len() > 0 || nested {
            fixed.push(' ');
        }
        push_all(&mut fixed, after.as_slice());
        if !(fixed.len() > 0 && fixed[fixed.len() - 1] == '\n') {
            fixed.push('\n');
        }
        let ghost spec_fixed = s@.take(gt + 1) + (if trimmed(after@).len() > 0 || nested {
            seq![' ']
        } else {
            seq![]
        }) + after@;
        assert(fixed@ =~= (if spec_fixed.len() > 0 && spec_fixed.last() == '\n' {
            spec_fixed
        } else {
            spec_fixed.push('\n')
        }));
        let total = byte_len_prefix(s, s.len());
        proof {
            assert(s@.take(s@.len() as int) == s@);
        }
        let mut description = String::from_str("Replace ");
        append_decimal(&mut description, wc);
        description.append(" spaces with 1 space after blockquote symbol");
        let mut message = String::from_str("Multiple spaces after blockquote symbol: found ");
        append_decimal(&mut message, wc);
        message.append(" whitespace characters, expected 1");
        let fix = new_fix(description, Some(string_of(fixed.as_slice())), num, 1, num, total + 1);
        new_violation("MD027", message, num, gt + 2, Severity::Warning, Some(fix))
    }

    /// The rule's identifier.
    pub fn id(&self) -> (r: &'static str)
        ensures
            r@ == "MD027"@,
    {
        "MD027"
    }

    /// The rule's name.
    pub fn name(&self) -> (r: &'static str)
        ensures
            r@ == "no-multiple-space-blockquote"@,
    {
        "no-multiple-space-blockquote"
    }

    /// What the rule checks.
    pub fn description(&self) -> (r: &'static str)
        ensures
            r@ == "Multiple spaces after blockquote symbol"@,
    {
        "Multiple spaces after blockquote symbol"
    }

    /// Whether the rule suggests fixes.
    pub fn can_fix(&self) -> (b: bool)
        ensures
            b,
    {
        true
    }

    /// Checks a document.
    pub fn check(&self, document: &Document) -> (r: Vec<Violation>)
        ensures
            r.deep_view() == multi_line_violations(
                self,
                document.lines_of(),
                Seq::new(document.lines_of().len(), |i: int| md027_skip(document.lines_of(), i)),
                0,
            ),
    {
        let flags = md027_flags(document);
        assert(flags@ =~= Seq::new(
            document.lines_of().len(),
            |i: int| md027_skip(document.lines_of(), i),
        ));
        check_multi_lines(self, document, &flags)
    }
}

impl MultiLineRule for MD027 {
    open spec fn line_spec(&self, num: int, line: Seq<char>, flag: bool) -> Seq<ViolationModel> {
        md027_line(num, line, flag)
    }

    fn line_check(&self, num: usize, line: &[char], flag: bool) -> (r: Vec<Violation>) {
        let mut out: Vec<Violation> = Vec::new();
        if flag {
            return out;
        }
        let ghost s = line@;
        let n = line.len();
        let mut pos = skip_ws(line, 0);
        let mut done = false;
        while !done && pos < n && line[pos] == '>'
            invariant
                done ==> md027_scan(num as int, s, pos as int) == Seq::<ViolationModel>::empty(),
                n == s.len(),
                n <= usize::MAX / 4,
                s == line@,
                pos <= n,
                out.deep_view() + md027_scan(num as int, s, pos as int) == md027_scan(
                    num as int,
                    s,
                    skip_ws_from(s, 0),
                ),
            decreases n - pos,
        {
            proof {
                lemma_run_fwd(s, pos + 1, CharClass::Whitespace);
            }
            let e = scan_fwd(line, pos + 1, CharClass::Whitespace);
            let tab = scan_fwd(line, pos + 1, CharClass::Except('\t')) < e;
            let nested = e < n && line[e] == '>';
            let ghost before = out.deep_view();
            if e - pos - 1 >= 2 || tab {
                let v = self.report(num, line, pos, e);
                out.push(v);
                assert(out.deep_view() == before.push(v.deep_view()));
            }
            if !nested {
                assert(out.deep_view() + md027_scan(num as int, s, e as int) == before
                    + md027_scan(num as int, s, pos as int)) by {
                    if e < n {
                        assert(s[e as int] != '>');
                    }
                    assert(md027_scan(num as int, s, e as int) == Seq::<ViolationModel>::empty());
                }
                pos = e;
                done = true;
            } else {
                assert(before + md027_scan(num as int, s, pos as int) == out.deep_view()
                + md027_scan(num as int, s, e as int));
                pos = e;
            }
        }
        out
    }
}

} // verus!
