//! Rules that judge each line on its own, with a flag computed for it
//! beforehand (such as whether the line lies in a code block).
use vstd::prelude::*;
use crate::document::Document;
use crate::violation::{Violation, ViolationModel};

verus! {

/// The violations of an optional violation.
pub open spec fn opt_seq(o: Option<ViolationModel>) -> Seq<ViolationModel> {
    match o {
        Some(v) => seq![v],
        None => seq![],
    }
}

/// A rule that reports at most one violation per line.
pub trait LineRule {
    /// The violation the rule reports on line `num` (1-based) with text `line`,
    /// whose flag is `flag`.
    spec fn line_spec(&self, num: int, line: Seq<char>, flag: bool) -> Option<ViolationModel>;

    /// Judges one line.
    fn line_check(&self, num: usize, line: &[char], flag: bool) -> (r: Option<Violation>)
        requires
            1 <= num <= usize::MAX / 4,
            line@.len() <= usize::MAX / 4,
        ensures
            r.deep_view() == self.line_spec(num as int, line@, flag),
    ;
}

/// The violations a line rule reports on lines `i..`.
pub open spec fn line_violations<R: LineRule>(
    rule: &R,
    lines: Seq<Seq<char>>,
    flags: Seq<bool>,
    i: int,
) -> Seq<ViolationModel>
    decreases lines.len() - i,
{
    if i >= lines.len() || i < 0 {
        seq![]
    } else {
        opt_seq(rule.line_spec(i + 1, lines[i], flags[i])) + line_violations(rule, lines, flags, i + 1)
    }
}

/// A line rule that reports nothing on each line from `i` on reports
/// nothing there in all.
pub proof fn lemma_line_violations_empty<R: LineRule>(rule: &R, lines: Seq<Seq<char>>, flags: Seq<bool>, i: int)
    requires
        0 <= i,
        forall|k: int| i <= k < lines.len() ==> #[trigger] rule.line_spec(k + 1, lines[k], flags[k]) is None,
    ensures
        line_violations(rule, lines, flags, i) == Seq::<ViolationModel>::empty(),
    decreases lines.len() - i,
{
    if i < lines.len() {
        assert(rule.line_spec(i + 1, lines[i], flags[i]) is None);
        lemma_line_violations_empty(rule, lines, flags, i + 1);
    }
}

/// Appends an optional violation.
pub fn push_opt(out: &mut Vec<Violation>, v: Option<Violation>)
    ensures
        final(out).deep_view() == old(out).deep_view() + opt_seq(v.deep_view()),
{
    let ghost before = out.deep_view();
    match v {
        Some(x) => {
            out.push(x);
            assert(out.deep_view() =~= before + seq![x.deep_view()]);
        },
        None => {
            assert(out.deep_view() =~= before + Seq::<ViolationModel>::empty());
        },
    }
}

/// Runs a line rule over every line of a document, given one flag per line.
pub fn check_lines<R: LineRule>(rule: &R, document: &Document, flags: &Vec<bool>) -> (r: Vec<
    Violation,
>)
    requires
        flags@.len() == document.lines_of().len(),
    ensures
        r.deep_view() == line_violations(rule, document.lines_of(), flags@, 0),
{
    let ghost lines = document.lines_of();
    let n = document.line_count();
    let mut out: Vec<Violation> = Vec::new();
    let mut i: usize = 0;
    while i < n
        invariant
            n == lines.len(),
            n <= usize::MAX / 4,
            flags@.len() == n,
            lines == document.lines_of(),
            i <= n,
            out.deep_view() + line_violations(rule, lines, flags@, i as int) == line_violations(
                rule,
                lines,
                flags@,
                0,
            ),
        decreases n - i,
    {
        let v = rule.line_check(i + 1, document.line(i), flags[i]);
        let ghost before = out.deep_view();
        push_opt(&mut out, v);
        assert(line_violations(rule, lines, flags@, i as int) == opt_seq(v.deep_view())
            + line_violations(rule, lines, flags@, i + 1));
        assert(before + line_violations(rule, lines, flags@, i as int) == (before + opt_seq(
            v.deep_view(),
        )) + line_violations(rule, lines, flags@, i + 1));
        i = i + 1;
    }
    out
}

/// One `false` flag per line of the document.
pub fn no_flags(document: &Document) -> (f: Vec<bool>)
    ensures
        f@.len() == document.lines_of().len(),
        forall|i: int| 0 <= i < f@.len() ==> !#[trigger] f@[i],
{
    let n = document.line_count();
    let mut f: Vec<bool> = Vec::new();
    for i in 0..n
        invariant
            f@.len() == i,
            forall|k: int| 0 <= k < f@.len() ==> !#[trigger] f@[k],
    {
        f.push(false);
    }
    f
}

/// A rule that reports any number of violations per line.
pub trait MultiLineRule {
    /// The violations the rule reports on line `num` (1-based) with text
    /// `line`, whose flag is `flag`.
    spec fn line_spec(&self, num: int, line: Seq<char>, flag: bool) -> Seq<ViolationModel>;

    /// Judges one line.
    fn line_check(&self, num: usize, line: &[char], flag: bool) -> (r: Vec<Violation>)
        requires
            1 <= num <= usize::MAX / 4,
            line@.len() <= usize::MAX / 4,
        ensures
            r.deep_view() == self.line_spec(num as int, line@, flag),
    ;
}

/// The violations a multi-line rule reports on lines `i..`.
pub open spec fn multi_line_violations<R: MultiLineRule>(
    rule: &R,
    lines: Seq<Seq<char>>,
    flags: Seq<bool>,
    i: int,
) -> Seq<ViolationModel>
    decreases lines.len() - i,
{
    if i >= lines.len() || i < 0 {
        seq![]
    } else {
        rule.line_spec(i + 1, lines[i], flags[i]) + multi_line_violations(rule, lines, flags, i + 1)
    }
}

/// Appends all of `v` to `out`.
pub fn push_vec(out: &mut Vec<Violation>, v: Vec<Violation>)
    ensures
        final(out).deep_view() == old(out).deep_view() + v.deep_view(),
{
    let ghost before = out@;
    let mut v = v;
    let ghost whole = v@;
    out.append(&mut v);
    assert(out@ == before + whole);
    assert(out.deep_view() =~= old(out).deep_view() + Seq::new(whole.len(), |i: int| whole[i].deep_view()));
}

/// Runs a multi-line rule over every line of a document, given one flag per line.
pub fn check_multi_lines<R: MultiLineRule>(rule: &R, document: &Document, flags: &Vec<bool>) -> (r:
    Vec<Violation>)
    requires
        flags@.len() == document.lines_of().len(),
    ensures
        r.deep_view() == multi_line_violations(rule, document.lines_of(), flags@, 0),
{
    let ghost lines = document.lines_of();
    let n = document.line_count();
    let mut out: Vec<Violation> = Vec::new();
    let mut i: usize = 0;
    while i < n
        invariant
            n == lines.len(),
            n <= usize::MAX / 4,
            flags@.len() == n,
            lines == document.lines_of(),
            i <= n,
            out.deep_view() + multi_line_violations(rule, lines, flags@, i as int)
                == multi_line_violations(rule, lines, flags@, 0),
        decreases n - i,
    {
        let v = rule.line_check(i + 1, document.line(i), flags[i]);
        let ghost before = out.deep_view();
        let ghost here = v.deep_view();
        push_vec(&mut out, v);
        assert(multi_line_violations(rule, lines, flags@, i as int) == here + multi_line_violations(
            rule,
            lines,
            flags@,
            i + 1,
        ));
        assert(before + multi_line_violations(rule, lines, flags@, i as int) == (before + here)
            + multi_line_violations(rule, lines, flags@, i + 1));
        i = i + 1;
    }
    out
}

} // verus!
