//! MD022: headings should be surrounded by blank lines.
use vstd::prelude::*;
use vstd::string::StringExecFns;
use crate::document::{Document, MdNode, NodeKind};
use crate::nodes::{check_nodes, lemma_node_violations_empty, node_violations, NodeRule};
use crate::text::{byte_len, byte_len_prefix, chars_of, trim_chars, trimmed};
use crate::violation::{
    fix_model, new_fix, new_violation, violation_model, with_newline, Severity, Violation,
    ViolationModel,
};

verus! {

/// Rule that wants a blank line before and after each heading.
pub struct MD022;

/// A line counts as blank when, trimmed, it holds only `>` markers and spaces.
pub open spec fn spacing_blank(line: Seq<char>) -> bool {
    let t = trimmed(line);
    forall|k: int| 0 <= k < t.len() ==> (#[trigger] t[k] == '>' || t[k] == ' ')
}

/// Whether a line counts as blank: empty once trimmed, or only `>` markers
/// and spaces.
pub fn is_blank_line(line: &str) -> (b: bool)
    ensures
        b == spacing_blank(line@),
{
    blank_chars(chars_of(line).as_slice())
}

/// Whether the characters of a line count as blank.
fn blank_chars(line: &[char]) -> (b: bool)
    ensures
        b == spacing_blank(line@),
{
    let t = trim_chars(line);
    let mut k: usize = 0;
    while k < t.len()
        invariant
            k <= t@.len(),
            t@ == trimmed(line@),
            forall|m: int| 0 <= m < k ==> (#[trigger] t@[m] == '>' || t@[m] == ' '),
        decreases t@.len() - k,
    {
        if !(t[k] == '>' || t[k] == ' ') {
            assert(!(trimmed(line@)[k as int] == '>' || trimmed(line@)[k as int] == ' '));
            return false;
        }
        k = k + 1;
    }
    true
}

/// There is a blank line (or none at all) before 1-based line `n`.
pub open spec fn blank_before(lines: Seq<Seq<char>>, n: int) -> bool {
    n <= 1 || n - 2 >= lines.len() || spacing_blank(lines[n - 2])
}

/// There is a blank line (or none at all) after 1-based line `n`.
pub open spec fn blank_after(lines: Seq<Seq<char>>, n: int) -> bool {
    n >= lines.len() || spacing_blank(lines[n])
}

/// The violations MD022 reports on node `i`.
pub open spec fn md022_node(lines: Seq<Seq<char>>, nodes: Seq<MdNode>, i: int) -> Seq<ViolationModel> {
    let node = nodes[i];
    let n = node.start_line as int;
    if !(node.kind is Heading) {
        seq![]
    } else {
        (if !blank_before(lines, n) {
            let prev = lines[n - 2];
            seq![
                violation_model(
                    "MD022"@,
                    "Heading should be preceded by a blank line"@,
                    node.start_line,
                    node.start_column,
                    Severity::Warning,
                    Some(
                        fix_model(
                            "Add blank line before heading"@,
                            Some(prev.push('\n')),
                            (n - 1) as usize,
                            1,
                            (n - 1) as usize,
                            (byte_len(prev) + 1) as usize,
                        ),
                    ),
                ),
            ]
        } else {
            seq![]
        }) + (if !blank_after(lines, n) && n >= 1 {
            let cur = lines[n - 1];
            seq![
                violation_model(
                    "MD022"@,
                    "Heading should be followed by a blank line"@,
                    node.start_line,
                    node.start_column,
                    Severity::Warning,
                    Some(
                        fix_model(
                            "Add blank line after heading"@,
                            Some(cur.push('\n')),
                            node.start_line,
                            1,
                            node.start_line,
                            (byte_len(cur) + 1) as usize,
                        ),
                    ),
                ),
            ]
        } else {
            seq![]
        })
    }
}

/// Law: a document in which every heading has a blank line (or the edge of
/// the text) before and after it draws no report.
pub proof fn md022_spaced_headings_pass(lines: Seq<Seq<char>>, nodes: Seq<MdNode>)
    requires
        forall|k: int|
            0 <= k < nodes.len() && (#[trigger] nodes[k]).kind is Heading ==> blank_before(
                lines,
                nodes[k].start_line as int,
            ) && blank_after(lines, nodes[k].start_line as int),
    ensures
        node_violations(&MD022, lines, nodes, 0) == Seq::<ViolationModel>::empty(),
{
    assert forall|k: int| 0 <= k < nodes.len() implies #[trigger] MD022.node_spec(lines, nodes, k)
        == Seq::<ViolationModel>::empty() by {
        if nodes[k].kind is Heading {
            assert(blank_before(lines, nodes[k].start_line as int));
        }
    }
    lemma_node_violations_empty(&MD022, lines, nodes, 0);
}

impl NodeRule for MD022 {
    open spec fn node_spec(&self, lines: Seq<Seq<char>>, nodes: Seq<MdNode>, i: int) -> Seq<ViolationModel> {
        md022_node(lines, nodes, i)
    }

    fn node_check(&self, document: &Document, nodes: &Vec<MdNode>, i: usize) -> (r: Vec<Violation>) {
        let node = &nodes[i];
        let mut out: Vec<Violation> = Vec::new();
        let is_heading = match &node.kind {
            NodeKind::Heading { .. } => true,
            _ => false,
        };
        if !is_heading {
            return out;
        }
        let ghost lines = document.lines_of();
        let nl = document.line_count();
        let n = node.start_line;
        let before_blank = n <= 1 || n - 2 >= nl || blank_chars(document.line(n - 2));
        if !before_blank {
            let prev = document.line(n - 2);
            let total = byte_len_prefix(prev, prev.len());
            proof {
                assert(prev@.take(prev@.len() as int) == prev@);
            }
            let fix = new_fix(
                String::from_str("Add blank line before heading"),
                Some(with_newline(prev)),
                n - 1,
                1,
                n - 1,
                total + 1,
            );
            out.push(
                new_violation(
                    "MD022",
                    String::from_str("Heading should be preceded by a blank line"),
                    n,
                    node.start_column,
                    Severity::Warning,
                    Some(fix),
                ),
            );
        }
        let ghost mid = out.deep_view();
        let after_blank = n >= nl || blank_chars(document.line(n));
        if !after_blank && n >= 1 {
            let cur = document.line(n - 1);
            let total = byte_len_prefix(cur, cur.len());
            proof {
                assert(cur@.take(cur@.len() as int) == cur@);
            }
            let fix = new_fix(
                String::from_str("Add blank line after heading"),
                Some(with_newline(cur)),
                n,
                1,
                n,
                total + 1,
            );
            let v = new_violation(
                "MD022",
                String::from_str("Heading should be followed by a blank line"),
                n,
                node.start_column,
                Severity::Warning,
                Some(fix),
            );
            out.push(v);
            assert(out.deep_view() == mid.push(v.deep_view()));
        }
        proof {
            assert(nodes@[i as int] == *node);
            assert(out.deep_view() =~= md022_node(lines, nodes@, i as int));
        }
        out
    }
}

impl MD022 {
    /// The rule's identifier.
    pub fn id(&self) -> (r: &'static str)
        ensures
            r@ == "MD022"@,
    {
        "MD022"
    }

    /// The rule's name.
    pub fn name(&self) -> (r: &'static str)
        ensures
            r@ == "blanks-around-headings"@,
    {
        "blanks-around-headings"
    }

    /// What the rule checks.
    pub fn description(&self) -> (r: &'static str)
        ensures
            r@ == "Headings should be surrounded by blank lines"@,
    {
        "Headings should be surrounded by blank lines"
    }

    /// Whether the rule suggests fixes.
    pub fn can_fix(&self) -> (b: bool)
        ensures
            b,
    {
        true
    }

    /// Checks a document.
    pub fn check(&self, document: &Document) -> (r: Vec<Violation>)
        ensures
            r.deep_view() == node_violations(self, document.lines_of(), document.nodes_of(), 0),
    {
        check_nodes(self, document)
    }
}

} // verus!
