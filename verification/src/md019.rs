//! MD019: multiple spaces after the hashes of an ATX heading.
use vstd::prelude::*;
use vstd::string::StringExecFns;
use crate::document::Document;
use crate::lines::{check_lines, line_violations, no_flags, LineRule};
use crate::md023::is_atx_candidate;
use crate::text::{decimal, run_fwd, scan_fwd, skip_ws, skip_ws_from, CharClass};
use crate::violation::{
    append_decimal, new_violation, violation_model, Severity, Violation, ViolationModel,
};

verus! {

/// Rule that flags more than one space after the opening hashes.
pub struct MD019;

/// Whether the text at index `a` of `s` starts with two spaces, a tab, or a
/// space and a tab.
pub open spec fn extra_space_at(s: Seq<char>, a: int) -> bool {
    ||| (a + 1 < s.len() && s[a] == ' ' && s[a + 1] == ' ')
    ||| (a < s.len() && s[a] == '\t')
    ||| (a + 1 < s.len() && s[a] == ' ' && s[a + 1] == '\t')
}

/// The violation MD019 reports on line `num`.
pub open spec fn md019_line(num: int, line: Seq<char>) -> Option<ViolationModel> {
    let st = skip_ws_from(line, 0);
    let t = line.subrange(st, line.len() as int);
    let a = run_fwd(line, st, CharClass::Exactly('#'));
    if is_atx_candidate(t) && a < line.len() && extra_space_at(line, a) {
        let w = run_fwd(line, a, CharClass::Whitespace) - a;
        Some(
            violation_model(
                "MD019"@,
                "Multiple spaces after hash on ATX heading: found "@ + decimal(w as nat)
                    + " whitespace characters, expected 1"@,
                num as usize,
                (a - st + 1) as usize,
                Severity::Warning,
                None,
            ),
        )
    } else {
        None
    }
}

impl LineRule for MD019 {
    open spec fn line_spec(&self, num: int, line: Seq<char>, flag: bool) -> Option<ViolationModel> {
        md019_line(num, line)
    }

    fn line_check(&self, num: usize, line: &[char], flag: bool) -> (r: Option<Violation>) {
        let st = skip_ws(line, 0);
        let n = line.len();
        if !(st < n && line[st] == '#' && !(st + 1 < n && line[st + 1] == '!')) {
            return None;
        }
        let a = scan_fwd(line, st, CharClass::Exactly('#'));
        if a < n && ((a + 1 < n && line[a] == ' ' && line[a + 1] == ' ') || line[a] == '\t' || (a
            + 1 < n && line[a] == ' ' && line[a + 1] == '\t')) {
            let w = scan_fwd(line, a, CharClass::Whitespace) - a;
            let mut message = String::from_str("Multiple spaces after hash on ATX heading: found ");
            append_decimal(&mut message, w);
            message.append(" whitespace characters, expected 1");
            Some(new_violation("MD019", message, num, a - st + 1, Severity::Warning, None))
        } else {
            None
        }
    }
}

impl MD019 {
    /// The rule's identifier.
    pub fn id(&self) -> (r: &'static str)
        ensures
            r@ == "MD019"@,
    {
        "MD019"
    }

    /// The rule's name.
    pub fn name(&self) -> (r: &'static str)
        ensures
            r@ == "no-multiple-space-atx"@,
    {
        "no-multiple-space-atx"
    }

    /// What the rule checks.
    pub fn description(&self) -> (r: &'static str)
        ensures
            r@ == "Multiple spaces after hash on atx style heading"@,
    {
        "Multiple spaces after hash on atx style heading"
    }

    /// Checks a document.
    pub fn check(&self, document: &Document) -> (r: Vec<Violation>)
        ensures
            r.deep_view() == line_violations(
                self,
                document.lines_of(),
                Seq::new(document.lines_of().len(), |i: int| false),
                0,
            ),
    {
        let flags = no_flags(document);
        assert(flags@ =~= Seq::new(document.lines_of().len(), |i: int| false));
        check_lines(self, document, &flags)
    }
}

} // verus!
