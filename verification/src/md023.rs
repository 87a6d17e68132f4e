//! MD023: headings must start at the beginning of the line.
use vstd::prelude::*;
use vstd::string::StringExecFns;
use crate::document::Document;
use crate::lines::{check_lines, line_violations, no_flags, LineRule};
use crate::text::{byte_len, byte_len_prefix, decimal, skip_ws, skip_ws_from, slice_chars};
use crate::violation::{
    append_decimal, append_plural, fix_model, fix_text, new_fix, new_violation, plural_s,
    violation_model, with_newline, Severity, Violation, ViolationModel,
};

verus! {

/// Rule that flags indented ATX headings.
pub struct MD023;

/// A line whose text after its leading whitespace starts with `#` but not `#!`.
pub open spec fn is_atx_candidate(t: Seq<char>) -> bool {
    t.len() > 0 && t[0] == '#' && !(t.len() > 1 && t[1] == '!')
}

/// The violation MD023 reports on line `num`.
pub open spec fn md023_line(num: int, line: Seq<char>) -> Option<ViolationModel> {
    let st = skip_ws_from(line, 0);
    let t = line.subrange(st, line.len() as int);
    if is_atx_candidate(t) && st > 0 {
        let w = byte_len(line.take(st));
        Some(
            violation_model(
                "MD023"@,
                "Heading is indented by "@ + decimal(w) + " character"@ + plural_s(w),
                num as usize,
                1,
                Severity::Warning,
                Some(
                    fix_model(
                        "Remove "@ + decimal(w) + " character"@ + plural_s(w) + " of indentation"@,
                        Some(t.push('\n')),
                        num as usize,
                        1,
                        num as usize,
                        (byte_len(line) + 1) as usize,
                    ),
                ),
            ),
        )
    } else {
        None
    }
}

/// Law: the line MD023's fix leaves behind (the heading without its
/// indentation, before the line break the fix appends) draws no report from
/// MD023.
pub proof fn md023_fix_leaves_clean_line(num: int, line: Seq<char>)
    requires
        md023_line(num, line) is Some,
    ensures
        md023_line(num, fix_text(md023_line(num, line)->0).drop_last()) is None,
{
    let st = skip_ws_from(line, 0);
    let t = line.subrange(st, line.len() as int);
    assert(fix_text(md023_line(num, line)->0).drop_last() =~= t);
    assert(skip_ws_from(t, 0) == 0);
}

impl LineRule for MD023 {
    open spec fn line_spec(&self, num: int, line: Seq<char>, flag: bool) -> Option<ViolationModel> {
        md023_line(num, line)
    }

    fn line_check(&self, num: usize, line: &[char], flag: bool) -> (r: Option<Violation>) {
        let st = skip_ws(line, 0);
        let n = line.len();
        if st < n && line[st] == '#' && !(st + 1 < n && line[st + 1] == '!') && st > 0 {
            let w = byte_len_prefix(line, st);
            let total = byte_len_prefix(line, n);
            proof {
                assert(line@.take(n as int) == line@);
            }
            let t = slice_chars(line, st, n);
            let mut description = String::from_str("Remove ");
            append_decimal(&mut description, w);
            description.append(" character");
            append_plural(&mut description, w);
            description.append(" of indentation");
            let mut message = String::from_str("Heading is indented by ");
            append_decimal(&mut message, w);
            message.append(" character");
            append_plural(&mut message, w);
            let fix = new_fix(description, Some(with_newline(t.as_slice())), num, 1, num, total + 1);
            Some(new_violation("MD023", message, num, 1, Severity::Warning, Some(fix)))
        } else {
            None
        }
    }
}

impl MD023 {
    /// The rule's identifier.
    pub fn id(&self) -> (r: &'static str)
        ensures
            r@ == "MD023"@,
    {
        "MD023"
    }

    /// The rule's name.
    pub fn name(&self) -> (r: &'static str)
        ensures
            r@ == "heading-start-left"@,
    {
        "heading-start-left"
    }

    /// What the rule checks.
    pub fn description(&self) -> (r: &'static str)
        ensures
            r@ == "Headings must start at the beginning of the line"@,
    {
        "Headings must start at the beginning of the line"
    }

    /// Checks a document.
    pub fn check(&self, document: &Document) -> (r: Vec<Violation>)
        ensures
            r.deep_view() == line_violations(
                self,
                document.lines_of(),
                Seq::new(document.lines_of().len(), |i: int| false),
                0,
            ),
    {
        let flags = no_flags(document);
        assert(flags@ =~= Seq::new(document.lines_of().len(), |i: int| false));
        check_lines(self, document, &flags)
    }
}

} // verus!
