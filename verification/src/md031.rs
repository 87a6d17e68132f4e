//! MD031: fenced code blocks should be surrounded by blank lines.
use vstd::prelude::*;
use vstd::string::StringExecFns;
use crate::document::{Document, MdNode, NodeKind};
use crate::md046::end_column;
use crate::nodes::{check_nodes, node_violations, NodeRule};
use crate::text::{
    blank_line, byte_len_prefix, has_at, is_blank, lit_at, run_fwd, scan_fwd, skip_ws, slice_chars,
    trim_chars, trim_start, trimmed, CharClass,
};
use crate::violation::{
    fix_model, new_fix, new_violation, violation_model, Severity, Violation, ViolationModel,
};

verus! {

/// Rule that flags fenced code blocks touching other content.
pub struct MD031;

/// Line `ln` (1-based) is the first line, or follows a blank line or the start.
pub open spec fn blank_before(lines: Seq<Seq<char>>, ln: int) -> bool {
    ln <= 1 || ln - 2 >= lines.len() || is_blank(lines[ln - 2])
}

/// Line `ln` (1-based) is the last line, or is followed by a blank line.
pub open spec fn blank_after(lines: Seq<Seq<char>>, ln: int) -> bool {
    ln >= lines.len() || is_blank(lines[ln])
}

/// `c` three times.
pub open spec fn fence_of(c: char) -> Seq<char> {
    seq![c, c, c]
}

/// Index of the first line at or after `j` that closes a fence of `len`
/// characters `c`: once trimmed, it holds nothing but at least `len` of
/// them. -1 when there is none.
pub open spec fn closing_fence_from(lines: Seq<Seq<char>>, j: int, c: char, len: int) -> int
    decreases lines.len() - j,
{
    if j < 0 || j >= lines.len() {
        -1
    } else {
        let t = trimmed(lines[j]);
        if has_at(t, 0, fence_of(c)) && run_fwd(t, 0, CharClass::Exactly(c)) >= len && run_fwd(
            t,
            0,
            CharClass::Exactly(c),
        ) == t.len() {
            j
        } else {
            closing_fence_from(lines, j + 1, c, len)
        }
    }
}

/// The line (1-based) on which the fenced block that opens on line `ln`
/// ends: its closing fence, or `ln` itself when none is found.
pub open spec fn block_end_line(lines: Seq<Seq<char>>, ln: int) -> int {
    let idx = ln - 1;
    if 0 <= idx < lines.len() {
        let t = trim_start(lines[idx]);
        if has_at(t, 0, "```"@) || has_at(t, 0, "~~~"@) {
            let c = if has_at(t, 0, "```"@) { '`' } else { '~' };
            let k = closing_fence_from(lines, idx + 1, c, run_fwd(t, 0, CharClass::Exactly(c)));
            if k >= 0 { k + 1 } else { ln }
        } else {
            ln
        }
    } else {
        ln
    }
}

/// The violations MD031 reports on node `i`: a fenced code block that does
/// not follow a blank line, or whose last line is not followed by one.
pub open spec fn md031_node(lines: Seq<Seq<char>>, nodes: Seq<MdNode>, i: int) -> Seq<ViolationModel> {
    let node = nodes[i];
    let ln = node.start_line as int;
    if !(node.kind matches NodeKind::CodeBlock { fenced, .. } && fenced) || ln < 1 {
        seq![]
    } else {
        let end = block_end_line(lines, ln);
        (if blank_before(lines, ln) {
            seq![]
        } else {
            seq![
                violation_model(
                    "MD031"@,
                    "Fenced code block should be preceded by a blank line"@,
                    node.start_line,
                    node.start_column,
                    Severity::Warning,
                    Some(
                        fix_model(
                            "Add blank line before fenced code block"@,
                            Some("\n"@),
                            (ln - 1) as usize,
                            end_column(lines, (ln - 1) as usize),
                            (ln - 1) as usize,
                            end_column(lines, (ln - 1) as usize),
                        ),
                    ),
                ),
            ]
        }) + (if blank_after(lines, end) {
            seq![]
        } else {
            seq![
                violation_model(
                    "MD031"@,
                    "Fenced code block should be followed by a blank line"@,
                    end as usize,
                    1,
                    Severity::Warning,
                    Some(
                        fix_model(
                            "Add blank line after fenced code block"@,
                            Some("\n"@),
                            end as usize,
                            end_column(lines, end as usize),
                            end as usize,
                            end_column(lines, end as usize),
                        ),
                    ),
                ),
            ]
        })
    }
}

fn column_after(document: &Document, k: usize) -> (c: usize)
    ensures
        c == end_column(document.lines_of(), k),
{
    if 1 <= k && k <= document.line_count() {
        let l = document.line(k - 1);
        let b = byte_len_prefix(l, l.len());
        assert(l@.take(l@.len() as int) == l@);
        b + 1
    } else {
        1
    }
}

impl MD031 {
    /// Whether line `line_num` follows a blank line or the start.
    fn has_blank_line_before(&self, document: &Document, line_num: usize) -> (b: bool)
        ensures
            b == blank_before(document.lines_of(), line_num as int),
    {
        if line_num <= 1 {
            return true;
        }
        if line_num - 2 < document.line_count() {
            blank_line(document.line(line_num - 2))
        } else {
            true
        }
    }

    /// Whether line `line_num` is the last line or is followed by a blank one.
    fn has_blank_line_after(&self, document: &Document, line_num: usize) -> (b: bool)
        ensures
            b == blank_after(document.lines_of(), line_num as int),
    {
        if line_num >= document.line_count() {
            return true;
        }
        blank_line(document.line(line_num))
    }

    /// The line on which the fenced block that opens on `start_line` ends.
    fn find_code_block_end_line(&self, document: &Document, start_line: usize) -> (r: usize)
        requires
            start_line >= 1,
        ensures
            r as int == block_end_line(document.lines_of(), start_line as int),
            r >= 1,
    {
        let ghost lines = document.lines_of();
        let n = document.line_count();
        let idx = start_line - 1;
        if idx >= n {
            return start_line;
        }
        let l = document.line(idx);
        let a = skip_ws(l, 0);
        let t = slice_chars(l, a, l.len());
        let back = lit_at(t.as_slice(), 0, "```");
        if !back && !lit_at(t.as_slice(), 0, "~~~") {
            return start_line;
        }
        let c = if back { '`' } else { '~' };
        let mut fv: Vec<char> = Vec::new();
        fv.push(c);
        fv.push(c);
        fv.push(c);
        assert(fv@ == fence_of(c));
        proof {
            reveal_strlit("```");
            reveal_strlit("~~~");
            assert(fence_of(c) == (if back { "```"@ } else { "~~~"@ }));
        }
        let flen = scan_fwd(t.as_slice(), 0, CharClass::Exactly(c));
        assert(t@ == trim_start(lines[idx as int]));
        let mut j = idx + 1;
        while j < n
            invariant
                n == lines.len(),
                lines == document.lines_of(),
                idx + 1 <= j <= n,
                idx < n,
                idx + 1 == start_line,
                t@ == trim_start(lines[idx as int]),
                back == has_at(t@, 0, "```"@),
                back || has_at(t@, 0, "~~~"@),
                c == (if back { '`' } else { '~' }),
                flen as int == run_fwd(t@, 0, CharClass::Exactly(c)),
                fv@ == fence_of(c),
                closing_fence_from(lines, idx + 1, c, flen as int) == closing_fence_from(
                    lines,
                    j as int,
                    c,
                    flen as int,
                ),
            decreases n - j,
        {
            let lt = trim_chars(document.line(j));
            if crate::text::matches_at(lt.as_slice(), 0, fv.as_slice()) {
                let cl = scan_fwd(lt.as_slice(), 0, CharClass::Exactly(c));
                if cl >= flen && cl == lt.len() {
                    assert(closing_fence_from(lines, j as int, c, flen as int) == j as int);
                    return j + 1;
                }
            }
            j = j + 1;
        }
        start_line
    }

    /// The rule's identifier.
    pub fn id(&self) -> (r: &'static str)
        ensures
            r@ == "MD031"@,
    {
        "MD031"
    }

    /// The rule's name.
    pub fn name(&self) -> (r: &'static str)
        ensures
            r@ == "blanks-around-fences"@,
    {
        "blanks-around-fences"
    }

    /// What the rule checks.
    pub fn description(&self) -> (r: &'static str)
        ensures
            r@ == "Fenced code blocks should be surrounded by blank lines"@,
    {
        "Fenced code blocks should be surrounded by blank lines"
    }

    /// The rule offers fixes.
    pub fn can_fix(&self) -> (b: bool)
        ensures
            b,
    {
        true
    }

    /// Checks a document.
    pub fn check(&self, document: &Document) -> (r: Vec<Violation>)
        ensures
            r.deep_view() == node_violations(self, document.lines_of(), document.nodes_of(), 0),
    {
        check_nodes(self, document)
    }
}

impl NodeRule for MD031 {
    open spec fn node_spec(&self, lines: Seq<Seq<char>>, nodes: Seq<MdNode>, i: int) -> Seq<ViolationModel> {
        md031_node(lines, nodes, i)
    }

    fn node_check(&self, document: &Document, nodes: &Vec<MdNode>, i: usize) -> (r: Vec<Violation>) {
        let ghost lines = document.lines_of();
        let mut out: Vec<Violation> = Vec::new();
        let node = &nodes[i];
        let fenced = match &node.kind {
            NodeKind::CodeBlock { fenced, .. } => *fenced,
            _ => false,
        };
        let ln = node.start_line;
        if !fenced || ln < 1 {
            return out;
        }
        if !self.has_blank_line_before(document, ln) {
            let col = column_after(document, ln - 1);
            let fix = new_fix(
                String::from_str("Add blank line before fenced code block"),
                Some(String::from_str("\n")),
                ln - 1,
                col,
                ln - 1,
                col,
            );
            let v = new_violation(
                "MD031",
                String::from_str("Fenced code block should be preceded by a blank line"),
                ln,
                node.start_column,
                Severity::Warning,
                Some(fix),
            );
            out.push(v);
        }
        let ghost first = out.deep_view();
        let end = self.find_code_block_end_line(document, ln);
        if !self.has_blank_line_after(document, end) {
            let col = column_after(document, end);
            let fix = new_fix(
                String::from_str("Add blank line after fenced code block"),
                Some(String::from_str("\n")),
                end,
                col,
                end,
                col,
            );
            let v = new_violation(
                "MD031",
                String::from_str("Fenced code block should be followed by a blank line"),
                end,
                1,
                Severity::Warning,
                Some(fix),
            );
            out.push(v);
            assert(out.deep_view() == first.push(v.deep_view()));
        }
        assert(out.deep_view() =~= md031_node(lines, nodes@, i as int));
        out
    }
}

} // verus!
