//! MD020: missing space inside the hashes of a closed ATX heading.
use vstd::prelude::*;
use vstd::string::StringExecFns;
use crate::atx::{trailing_hash_chars, trailing_hashes};
use crate::document::Document;
use crate::lines::{check_lines, line_violations, no_flags, LineRule};
use crate::md023::is_atx_candidate;
use crate::text::{
    is_blank_char, lemma_run_back, lemma_run_fwd, push_all, run_back, run_fwd, scan_back, scan_fwd,
    skip_ws, skip_ws_from, slice_chars, string_of, CharClass,
};
use crate::violation::{
    fix_model, new_fix, new_violation, violation_model, Severity, Violation, ViolationModel,
};

verus! {

/// Rule that flags closed ATX headings without a space inside their hashes.
pub struct MD020;

/// `s` without leading and trailing spaces and tabs.
pub open spec fn trim_blanks(s: Seq<char>) -> Seq<char> {
    let lo = run_fwd(s, 0, CharClass::SpaceOrTab);
    let hi = run_back(s, s.len() as int, CharClass::SpaceOrTab);
    if hi <= lo {
        seq![]
    } else {
        s.subrange(lo, hi)
    }
}

/// The violation MD020 reports on line `num`.
pub open spec fn md020_line(num: int, line: Seq<char>) -> Option<ViolationModel> {
    let st = skip_ws_from(line, 0);
    let t = line.subrange(st, line.len() as int);
    let oc = run_fwd(t, 0, CharClass::Exactly('#'));
    if !is_atx_candidate(t) || !(1 <= oc <= 6) {
        None
    } else {
        match trailing_hashes(t) {
            None => None,
            Some((cs, ce)) => {
                let between = t.subrange(oc, cs);
                let left_missing = !(between.len() > 0 && is_blank_char(between[0]));
                let right_missing = !(between.len() > 0 && is_blank_char(between.last()));
                let content = trim_blanks(between);
                if cs <= oc || !((!right_missing || left_missing) && (left_missing
                    || right_missing)) || content.len() == 0 {
                    None
                } else {
                    let fixed = line.take(st) + t.take(oc) + seq![' '] + content + seq![' ']
                        + t.subrange(cs, ce) + seq!['\n'];
                    Some(
                        violation_model(
                            "MD020"@,
                            "Missing space inside hashes on closed ATX heading"@,
                            num as usize,
                            1,
                            Severity::Warning,
                            Some(
                                fix_model(
                                    "Add missing spaces inside closed ATX heading"@,
                                    Some(fixed),
                                    num as usize,
                                    1,
                                    num as usize,
                                    (line.len() + 1) as usize,
                                ),
                            ),
                        ),
                    )
                }
            },
        }
    }
}

fn trim_blank_chars(s: &[char]) -> (r: Vec<char>)
    ensures
        r@ == trim_blanks(s@),
{
    proof {
        lemma_run_fwd(s@, 0, CharClass::SpaceOrTab);
        lemma_run_back(s@, s@.len() as int, CharClass::SpaceOrTab);
    }
    let lo = scan_fwd(s, 0, CharClass::SpaceOrTab);
    let hi = scan_back(s, s.len(), CharClass::SpaceOrTab);
    if hi <= lo {
        Vec::new()
    } else {
        slice_chars(s, lo, hi)
    }
}

impl LineRule for MD020 {
    open spec fn line_spec(&self, num: int, line: Seq<char>, flag: bool) -> Option<ViolationModel> {
        md020_line(num, line)
    }

    fn line_check(&self, num: usize, line: &[char], flag: bool) -> (r: Option<Violation>) {
        let st = skip_ws(line, 0);
        let n = line.len();
        let tv = slice_chars(line, st, n);
        let t = tv.as_slice();
        if !(t.len() > 0 && t[0] == '#' && !(t.len() > 1 && t[1] == '!')) {
            return None;
        }
        let oc = scan_fwd(t, 0, CharClass::Exactly('#'));
        if !(1 <= oc && oc <= 6) {
            return None;
        }
        let (cs, ce) = match trailing_hash_chars(t) {
            Some(p) => p,
            None => {
                return None;
            },
        };
        if cs <= oc {
            return None;
        }
        let between = slice_chars(t, oc, cs);
        let b = between.as_slice();
        let left_missing = !(b.len() > 0 && (b[0] == ' ' || b[0] == '\t'));
        let right_missing = !(b.len() > 0 && (b[b.len() - 1] == ' ' || b[b.len() - 1] == '\t'));
        if !((!right_missing || left_missing) && (left_missing || right_missing)) {
            return None;
        }
        let content = trim_blank_chars(b);
        if content.len() == 0 {
            return None;
        }
        let mut fixed: Vec<char> = slice_chars(line, 0, st);
        push_all(&mut fixed, slice_chars(t, 0, oc).as_slice());
        fixed.push(' ');
        push_all(&mut fixed, content.as_slice());
        fixed.push(' ');
        push_all(&mut fixed, slice_chars(t, cs, ce).as_slice());
        fixed.push('\n');
        let fix = new_fix(
            String::from_str("Add missing spaces inside closed ATX heading"),
            Some(string_of(fixed.as_slice())),
            num,
            1,
            num,
            n + 1,
        );
        proof {
            let ghost spec_fixed = line@.take(st as int) + t@.take(oc as int) + seq![' '] + content@
                + seq![' '] + t@.subrange(cs as int, ce as int) + seq!['\n'];
            assert(fixed@ =~= spec_fixed);
        }
        Some(
            new_violation(
                "MD020",
                String::from_str("Missing space inside hashes on closed ATX heading"),
                num,
                1,
                Severity::Warning,
                Some(fix),
            ),
        )
    }
}

impl MD020 {
    /// The rule's identifier.
    pub fn id(&self) -> (r: &'static str)
        ensures
            r@ == "MD020"@,
    {
        "MD020"
    }

    /// The rule's name.
    pub fn name(&self) -> (r: &'static str)
        ensures
            r@ == "no-missing-space-closed-atx"@,
    {
        "no-missing-space-closed-atx"
    }

    /// What the rule checks.
    pub fn description(&self) -> (r: &'static str)
        ensures
            r@ == "Missing space inside hashes on closed atx style heading"@,
    {
        "Missing space inside hashes on closed atx style heading"
    }

    /// Whether the rule suggests fixes.
    pub fn can_fix(&self) -> (b: bool)
        ensures
            b,
    {
        true
    }

    /// Checks a document.
    pub fn check(&self, document: &Document) -> (r: Vec<Violation>)
        ensures
            r.deep_view() == line_violations(
                self,
                document.lines_of(),
                Seq::new(document.lines_of().len(), |i: int| false),
                0,
            ),
    {
        let flags = no_flags(document);
        assert(flags@ =~= Seq::new(document.lines_of().len(), |i: int| false));
        check_lines(self, document, &flags)
    }
}

} // verus!
