//! What a rule reports: violations, their severity, and suggested fixes.
use vstd::prelude::*;
use crate::text::{decimal, push_decimal, string_of};
use vstd::string::StringExecFns;

verus! {

/// How serious a violation is.
#[derive(Debug, Clone, Copy, PartialEq, Eq, Structural)]
pub enum Severity {
    Error,
    Warning,
    Info,
}

/// A 1-based line and column in a document.
#[derive(Debug, Clone, Copy, PartialEq, Eq, Structural)]
pub struct Position {
    pub line: usize,
    pub column: usize,
}

/// A suggested edit: replace the text from `start` to `end` by `replacement`.
#[derive(Debug)]
pub struct Fix {
    pub description: String,
    pub replacement: Option<String>,
    pub start: Position,
    pub end: Position,
}

/// The value of a [`Fix`].
pub struct FixModel {
    pub description: Seq<char>,
    pub replacement: Option<Seq<char>>,
    pub start: Position,
    pub end: Position,
}

impl DeepView for Fix {
    type V = FixModel;

    open spec fn deep_view(&self) -> FixModel {
        FixModel {
            description: self.description@,
            replacement: match self.replacement {
                Some(r) => Some(r@),
                None => None,
            },
            start: self.start,
            end: self.end,
        }
    }
}

/// One finding of a rule.
#[derive(Debug)]
pub struct Violation {
    pub rule_id: String,
    pub message: String,
    pub line: usize,
    pub column: usize,
    pub severity: Severity,
    pub fix: Option<Fix>,
}

/// The value of a [`Violation`].
pub struct ViolationModel {
    pub rule_id: Seq<char>,
    pub message: Seq<char>,
    pub line: usize,
    pub column: usize,
    pub severity: Severity,
    pub fix: Option<FixModel>,
}

impl DeepView for Violation {
    type V = ViolationModel;

    open spec fn deep_view(&self) -> ViolationModel {
        ViolationModel {
            rule_id: self.rule_id@,
            message: self.message@,
            line: self.line,
            column: self.column,
            severity: self.severity,
            fix: match self.fix {
                Some(f) => Some(f.deep_view()),
                None => None,
            },
        }
    }
}

/// The violation with the given parts.
pub open spec fn violation_model(
    rule_id: Seq<char>,
    message: Seq<char>,
    line: usize,
    column: usize,
    severity: Severity,
    fix: Option<FixModel>,
) -> ViolationModel {
    ViolationModel { rule_id, message, line, column, severity, fix }
}

/// The text a violation's fix puts in place; empty when it has none.
pub open spec fn fix_text(v: ViolationModel) -> Seq<char> {
    match v.fix {
        Some(f) => match f.replacement {
            Some(r) => r,
            None => seq![],
        },
        None => seq![],
    }
}

/// The fix with the given parts.
pub open spec fn fix_model(
    description: Seq<char>,
    replacement: Option<Seq<char>>,
    start_line: usize,
    start_column: usize,
    end_line: usize,
    end_column: usize,
) -> FixModel {
    FixModel {
        description,
        replacement,
        start: Position { line: start_line, column: start_column },
        end: Position { line: end_line, column: end_column },
    }
}

/// Builds a violation.
pub fn new_violation(
    rule_id: &str,
    message: String,
    line: usize,
    column: usize,
    severity: Severity,
    fix: Option<Fix>,
) -> (v: Violation)
    ensures
        v.deep_view() == violation_model(
            rule_id@,
            message@,
            line,
            column,
            severity,
            match fix {
                Some(f) => Some(f.deep_view()),
                None => None,
            },
        ),
{
    Violation { rule_id: rule_id.to_owned(), message, line, column, severity, fix }
}

/// Builds a fix.
pub fn new_fix(
    description: String,
    replacement: Option<String>,
    start_line: usize,
    start_column: usize,
    end_line: usize,
    end_column: usize,
) -> (f: Fix)
    ensures
        f.deep_view() == fix_model(
            description@,
            match replacement {
                Some(r) => Some(r@),
                None => None,
            },
            start_line,
            start_column,
            end_line,
            end_column,
        ),
{
    Fix {
        description,
        replacement,
        start: Position { line: start_line, column: start_column },
        end: Position { line: end_line, column: end_column },
    }
}

/// The decimal rendering of `n`.
pub fn decimal_string(n: usize) -> (s: String)
    ensures
        s@ == decimal(n as nat),
{
    let mut v: Vec<char> = Vec::new();
    push_decimal(&mut v, n);
    string_of(v.as_slice())
}

/// "s" unless `n` is one.
pub open spec fn plural_s(n: nat) -> Seq<char> {
    if n == 1 { seq![] } else { seq!['s'] }
}

/// Appends the decimal rendering of `n`.
pub fn append_decimal(s: &mut String, n: usize)
    ensures
        final(s)@ == old(s)@ + decimal(n as nat),
{
    s.append(decimal_string(n).as_str());
}

/// Appends "s" unless `n` is one.
pub fn append_plural(s: &mut String, n: usize)
    ensures
        final(s)@ == old(s)@ + plural_s(n as nat),
{
    if n != 1 {
        s.append("s");
        proof {
            reveal_strlit("s");
        }
    }
    assert(final(s)@ =~= old(s)@ + plural_s(n as nat));
}

/// `s` followed by a line feed.
pub fn with_newline(s: &[char]) -> (r: String)
    ensures
        r@ == s@.push('\n'),
{
    let mut v: Vec<char> = Vec::new();
    crate::text::push_all(&mut v, s);
    v.push('\n');
    string_of(v.as_slice())
}

} // verus!
