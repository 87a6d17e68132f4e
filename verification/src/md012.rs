//! MD012: multiple consecutive blank lines.
use vstd::prelude::*;
use vstd::string::StringExecFns;
use crate::document::Document;
use crate::text::{blank_line, decimal, is_blank};
use crate::violation::{
    decimal_string, fix_model, plural_s, new_fix, new_violation, violation_model, Severity,
    Violation, ViolationModel,
};

verus! {

/// Rule that limits runs of consecutive blank lines.
pub struct MD012 {
    /// Maximum number of consecutive blank lines allowed.
    pub maximum: usize,
}

/// The violation for a run of `count` blank lines starting at line `start`
/// (1-based), at the end of the file when `at_end` holds.
pub open spec fn md012_violation(maximum: usize, start: int, count: int, at_end: bool) -> ViolationModel {
    let extra = (count - maximum) as nat;
    let description = "Remove "@ + decimal(extra) + " extra blank line"@ + plural_s(extra) + (
    if at_end { " at end of file"@ } else { seq![] });
    let message = (if at_end {
        "Multiple consecutive blank lines at end of file ("@
    } else {
        "Multiple consecutive blank lines ("@
    }) + decimal(count as nat) + " found, "@ + decimal(maximum as nat) + " allowed)"@;
    violation_model(
        "MD012"@,
        message,
        (start + maximum) as usize,
        1,
        Severity::Warning,
        Some(
            fix_model(
                description,
                Some(seq![]),
                (start + maximum) as usize,
                1,
                (start + count) as usize,
                1,
            ),
        ),
    )
}

/// The violations for lines `i..` given a current run of `count` blank lines
/// that began at line `start` (1-based).
pub open spec fn md012_scan(
    maximum: usize,
    lines: Seq<Seq<char>>,
    i: int,
    count: int,
    start: int,
) -> Seq<ViolationModel>
    decreases lines.len() - i,
{
    if i >= lines.len() {
        if count > maximum {
            seq![md012_violation(maximum, start, count, true)]
        } else {
            seq![]
        }
    } else if is_blank(lines[i]) {
        md012_scan(maximum, lines, i + 1, count + 1, if count == 0 { i + 1 } else { start })
    } else {
        (if count > maximum {
            seq![md012_violation(maximum, start, count, false)]
        } else {
            seq![]
        }) + md012_scan(maximum, lines, i + 1, 0, start)
    }
}

/// The violations MD012 reports on a document with the given lines.
pub open spec fn md012_violations(maximum: usize, lines: Seq<Seq<char>>) -> Seq<ViolationModel> {
    md012_scan(maximum, lines, 0, 0, 0)
}

/// How many blank lines come right before index `i`.
pub open spec fn blank_run_before(lines: Seq<Seq<char>>, i: int) -> nat
    decreases i,
{
    if i <= 0 || i > lines.len() {
        0
    } else if is_blank(lines[i - 1]) {
        blank_run_before(lines, i - 1) + 1
    } else {
        0
    }
}

proof fn lemma_short_runs_scan(maximum: usize, lines: Seq<Seq<char>>, i: int, count: int, start: int)
    requires
        0 <= i <= lines.len(),
        count == blank_run_before(lines, i),
        forall|k: int| 0 <= k <= lines.len() ==> #[trigger] blank_run_before(lines, k) <= maximum,
    ensures
        md012_scan(maximum, lines, i, count, start) == Seq::<ViolationModel>::empty(),
    decreases lines.len() - i,
{
    assert(blank_run_before(lines, i) <= maximum);
    if i < lines.len() {
        if is_blank(lines[i]) {
            lemma_short_runs_scan(maximum, lines, i + 1, count + 1, if count == 0 { i + 1 } else { start });
        } else {
            lemma_short_runs_scan(maximum, lines, i + 1, 0, start);
        }
    }
}

/// Law: a document in which no run of consecutive blank lines is longer
/// than the maximum draws no report.
pub proof fn md012_short_runs_pass(maximum: usize, lines: Seq<Seq<char>>)
    requires
        forall|k: int| 0 <= k <= lines.len() ==> #[trigger] blank_run_before(lines, k) <= maximum,
    ensures
        md012_violations(maximum, lines) == Seq::<ViolationModel>::empty(),
{
    lemma_short_runs_scan(maximum, lines, 0, 0, 0);
}

impl MD012 {
    /// The rule with the default maximum of one blank line.
    pub fn new() -> (r: Self)
        ensures
            r.maximum == 1,
    {
        MD012 { maximum: 1 }
    }

    /// The rule with a custom maximum.
    pub fn with_maximum(maximum: usize) -> (r: Self)
        ensures
            r.maximum == maximum,
    {
        MD012 { maximum }
    }

    /// The rule's identifier.
    pub fn id(&self) -> (r: &'static str)
        ensures
            r@ == "MD012"@,
    {
        "MD012"
    }

    /// The rule's name.
    pub fn name(&self) -> (r: &'static str)
        ensures
            r@ == "no-multiple-blanks"@,
    {
        "no-multiple-blanks"
    }

    /// What the rule checks.
    pub fn description(&self) -> (r: &'static str)
        ensures
            r@ == "Multiple consecutive blank lines are not allowed"@,
    {
        "Multiple consecutive blank lines are not allowed"
    }

    fn report(&self, start: usize, count: usize, at_end: bool) -> (v: Violation)
        requires
            count > self.maximum,
            start + count <= usize::MAX,
        ensures
            v.deep_view() == md012_violation(self.maximum, start as int, count as int, at_end),
    {
        let extra = count - self.maximum;
        let mut description = String::from_str("Remove ");
        description.append(decimal_string(extra).as_str());
        description.append(" extra blank line");
        if extra != 1 {
            description.append("s");
        }
        if at_end {
            description.append(" at end of file");
        }
        let mut message = if at_end {
            String::from_str("Multiple consecutive blank lines at end of file (")
        } else {
            String::from_str("Multiple consecutive blank lines (")
        };
        message.append(decimal_string(count).as_str());
        message.append(" found, ");
        message.append(decimal_string(self.maximum).as_str());
        message.append(" allowed)");
        let first = start + self.maximum;
        let fix = new_fix(description, Some(String::new()), first, 1, start + count, 1);
        let v = new_violation("MD012", message, first, 1, Severity::Warning, Some(fix));
        proof {
            let ghost e = (count - self.maximum) as nat;
            assert(plural_s(e) == (if e == 1 { Seq::<char>::empty() } else { "s"@ })) by {
                reveal_strlit("s");
            }
        }
        v
    }

    /// Checks a document.
    pub fn check(&self, document: &Document) -> (r: Vec<Violation>)
        ensures
            r.deep_view() == md012_violations(self.maximum, document.lines_of()),
    {
        let ghost lines = document.lines_of();
        let n = document.line_count();
        let mut out: Vec<Violation> = Vec::new();
        let mut count: usize = 0;
        let mut start: usize = 0;
        let mut i: usize = 0;
        while i < n
            invariant
                n == lines.len(),
                lines == document.lines_of(),
                i <= n,
                count <= i,
                count > 0 ==> 1 <= start && start + count == i + 1,
                out.deep_view() + md012_scan(self.maximum, lines, i as int, count as int, start as int)
                    == md012_violations(self.maximum, lines),
            decreases n - i,
        {
            if blank_line(document.line(i)) {
                if count == 0 {
                    start = i + 1;
                }
                count = count + 1;
            } else {
                let ghost prev = out.deep_view();
                if count > self.maximum {
                    let v = self.report(start, count, false);
                    out.push(v);
                    assert(out.deep_view() == prev.push(v.deep_view()));
                }
                assert(out.deep_view() + md012_scan(self.maximum, lines, i + 1, 0, start as int)
                    == md012_violations(self.maximum, lines));
                count = 0;
            }
            i = i + 1;
        }
        if count > self.maximum {
            let ghost prev = out.deep_view();
            let v = self.report(start, count, true);
            out.push(v);
            assert(out.deep_view() == prev.push(v.deep_view()));
        }
        out
    }
}

impl Default for MD012 {
    fn default() -> (r: Self)
        ensures
            r.maximum == 1,
    {
        MD012::new()
    }
}

} // verus!
