//! MD006: bulleted lists should start at the beginning of the line.
use vstd::prelude::*;
use vstd::string::StringExecFns;
use crate::document::Document;
use crate::fences::{line_starts_fence, starts_fence};
use crate::lines::{check_lines, line_violations, LineRule};
use crate::text::{
    blank_line, byte_len, byte_len_prefix, decimal, has_at, is_blank, is_ws, is_whitespace, lit_at,
    skip_ws, skip_ws_from, slice_chars,
};
use crate::violation::{
    append_decimal, fix_model, new_fix, new_violation, violation_model, with_newline, Severity,
    Violation, ViolationModel,
};

verus! {

/// Rule that flags indented bulleted list items.
pub struct MD006;

/// `t` starts with `*`, `+` or `-` followed by whitespace.
pub open spec fn bullet_start(t: Seq<char>) -> bool {
    t.len() > 1 && (t[0] == '*' || t[0] == '+' || t[0] == '-') && is_ws(t[1])
}

/// One step of the code-block tracking: the new (fenced, indented) state and
/// whether the line is code.
pub open spec fn md006_step(st: (bool, bool), line: Seq<char>) -> ((bool, bool), bool) {
    if starts_fence(line) {
        ((!st.0, st.1), true)
    } else if st.0 {
        (st, true)
    } else if !is_blank(line) && has_at(line, 0, "    "@) {
        if bullet_start(line.subrange(skip_ws_from(line, 4), line.len() as int)) {
            (st, false)
        } else {
            ((st.0, true), true)
        }
    } else if !is_blank(line) {
        ((st.0, false), false)
    } else {
        (st, st.1)
    }
}

/// The (fenced, indented) state once lines `0..i` are read.
pub open spec fn md006_state(lines: Seq<Seq<char>>, i: int) -> (bool, bool)
    decreases i,
{
    if i <= 0 {
        (false, false)
    } else {
        md006_step(md006_state(lines, i - 1), lines[i - 1]).0
    }
}

/// Whether line `i` is taken for code.
pub open spec fn md006_code(lines: Seq<Seq<char>>, i: int) -> bool {
    md006_step(md006_state(lines, i), lines[i]).1
}

/// The violation MD006 reports on line `num`.
pub open spec fn md006_line(num: int, line: Seq<char>, code: bool) -> Option<ViolationModel> {
    let st = skip_ws_from(line, 0);
    let rest = line.subrange(st, line.len() as int);
    if is_blank(line) || code || st == 0 || !bullet_start(rest) {
        None
    } else {
        let w = byte_len(line.take(st));
        Some(
            violation_model(
                "MD006"@,
                "Consider starting bulleted lists at the beginning of the line"@,
                num as usize,
                1,
                Severity::Warning,
                Some(
                    fix_model(
                        "Remove "@ + decimal(w) + " spaces of indentation"@,
                        Some(rest.push('\n')),
                        num as usize,
                        1,
                        num as usize,
                        (byte_len(line) + 1) as usize,
                    ),
                ),
            ),
        )
    }
}

fn bullet_at(s: &[char], i: usize) -> (b: bool)
    requires
        i <= s@.len(),
    ensures
        b == bullet_start(s@.subrange(i as int, s@.len() as int)),
{
    i < s.len() && i + 1 < s.len() && (s[i] == '*' || s[i] == '+' || s[i] == '-') && is_whitespace(s[i + 1])
}

fn md006_flags(document: &Document) -> (f: Vec<bool>)
    ensures
        f@.len() == document.lines_of().len(),
        forall|i: int| 0 <= i < f@.len() ==> #[trigger] f@[i] == md006_code(document.lines_of(), i),
{
    let ghost lines = document.lines_of();
    let n = document.line_count();
    let mut f: Vec<bool> = Vec::new();
    let mut fenced = false;
    let mut indented = false;
    for i in 0..n
        invariant
            n == lines.len(),
            lines == document.lines_of(),
            f@.len() == i,
            (fenced, indented) == md006_state(lines, i as int),
            forall|k: int| 0 <= k < f@.len() ==> #[trigger] f@[k] == md006_code(lines, k),
    {
        let line = document.line(i);
        let code;
        if line_starts_fence(line) {
            fenced = !fenced;
            code = true;
        } else if fenced {
            code = true;
        } else if !blank_line(line) && lit_at(line, 0, "    ") {
            proof {
                reveal_strlit("    ");
            }
            if bullet_at(line, skip_ws(line, 4)) {
                code = false;
            } else {
                indented = true;
                code = true;
            }
        } else if !blank_line(line) {
            indented = false;
            code = false;
        } else {
            code = indented;
        }
        f.push(code);
    }
    f
}

impl LineRule for MD006 {
    open spec fn line_spec(&self, num: int, line: Seq<char>, flag: bool) -> Option<ViolationModel> {
        md006_line(num, line, flag)
    }

    fn line_check(&self, num: usize, line: &[char], flag: bool) -> (r: Option<Violation>) {
        let st = skip_ws(line, 0);
        if blank_line(line) || flag || st == 0 || !bullet_at(line, st) {
            return None;
        }
        let w = byte_len_prefix(line, st);
        let total = byte_len_prefix(line, line.len());
        proof {
            assert(line@.take(line@.len() as int) == line@);
        }
        let rest = slice_chars(line, st, line.len());
        let mut description = String::from_str("Remove ");
        append_decimal(&mut description, w);
        description.append(" spaces of indentation");
        let fix = new_fix(description, Some(with_newline(rest.as_slice())), num, 1, num, total + 1);
        Some(
            new_violation(
                "MD006",
                String::from_str("Consider starting bulleted lists at the beginning of the line"),
                num,
                1,
                Severity::Warning,
                Some(fix),
            ),
        )
    }
}

impl MD006 {
    /// The rule's identifier.
    pub fn id(&self) -> (r: &'static str)
        ensures
            r@ == "MD006"@,
    {
        "MD006"
    }

    /// The rule's name.
    pub fn name(&self) -> (r: &'static str)
        ensures
            r@ == "ul-start-left"@,
    {
        "ul-start-left"
    }

    /// What the rule checks.
    pub fn description(&self) -> (r: &'static str)
        ensures
            r@ == "Consider starting bulleted lists at the beginning of the line"@,
    {
        "Consider starting bulleted lists at the beginning of the line"
    }

    /// Whether the rule suggests fixes.
    pub fn can_fix(&self) -> (b: bool)
        ensures
            b,
    {
        true
    }

    /// Checks a document.
    pub fn check(&self, document: &Document) -> (r: Vec<Violation>)
        ensures
            r.deep_view() == line_violations(
                self,
                document.lines_of(),
                Seq::new(document.lines_of().len(), |i: int| md006_code(document.lines_of(), i)),
                0,
            ),
    {
        let flags = md006_flags(document);
        assert(flags@ =~= Seq::new(document.lines_of().len(), |i: int| md006_code(document.lines_of(), i)));
        check_lines(self, document, &flags)
    }
}

} // verus!
