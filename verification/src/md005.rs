//! MD005: consistent indentation of the items of a list.
use vstd::prelude::*;
use vstd::string::StringExecFns;
use crate::document::{Document, MdNode, NodeKind};
use crate::nodes::{check_nodes, find_subtree_end, node_violations, subtree_end, NodeRule};
use crate::text::{chars_of, decimal};
use crate::violation::{
    append_decimal, new_violation, violation_model, Severity, Violation, ViolationModel,
};

verus! {

/// Rule that flags list items indented differently from the first item.
pub struct MD005;

/// The indentation of `s` from index `i`: leading spaces count one, tabs four.
pub open spec fn indent_from(s: Seq<char>, i: int) -> nat
    decreases s.len() - i,
{
    if i < 0 || i >= s.len() {
        0
    } else if s[i] == ' ' {
        1 + indent_from(s, i + 1)
    } else if s[i] == '\t' {
        4 + indent_from(s, i + 1)
    } else {
        0
    }
}

/// The indentation of a line.
pub open spec fn indentation(s: Seq<char>) -> nat {
    indent_from(s, 0)
}

/// The 1-based line `num`, when there is one.
pub open spec fn line_at(lines: Seq<Seq<char>>, num: int) -> Option<Seq<char>> {
    if 1 <= num <= lines.len() {
        Some(lines[num - 1])
    } else {
        None
    }
}

/// Node `j` is an item directly inside list node `i`.
pub open spec fn is_item_of(nodes: Seq<MdNode>, i: int, j: int) -> bool {
    nodes[j].depth == nodes[i].depth + 1 && nodes[j].kind is Item
}

/// The violations for the items of list `i` among nodes `j..end`, given the
/// indentation of the first item seen.
pub open spec fn md005_items(
    lines: Seq<Seq<char>>,
    nodes: Seq<MdNode>,
    i: int,
    j: int,
    end: int,
    expected: Option<nat>,
) -> Seq<ViolationModel>
    decreases end - j,
{
    if j >= end || j < 0 {
        seq![]
    } else if is_item_of(nodes, i, j) && line_at(lines, nodes[j].start_line as int) is Some {
        let a = indentation(line_at(lines, nodes[j].start_line as int)->0);
        match expected {
            None => md005_items(lines, nodes, i, j + 1, end, Some(a)),
            Some(e) => (if a != e {
                seq![
                    violation_model(
                        "MD005"@,
                        "List item indentation inconsistent: expected "@ + decimal(e)
                            + " spaces, found "@ + decimal(a),
                        nodes[j].start_line,
                        1,
                        Severity::Warning,
                        None,
                    ),
                ]
            } else {
                seq![]
            }) + md005_items(lines, nodes, i, j + 1, end, Some(e)),
        }
    } else {
        md005_items(lines, nodes, i, j + 1, end, expected)
    }
}

/// The violations MD005 reports on node `i`.
pub open spec fn md005_node(lines: Seq<Seq<char>>, nodes: Seq<MdNode>, i: int) -> Seq<ViolationModel> {
    if nodes[i].kind is List {
        md005_items(lines, nodes, i, i + 1, subtree_end(nodes, i), None)
    } else {
        seq![]
    }
}

fn indentation_chars(s: &[char]) -> (r: usize)
    requires
        s@.len() <= usize::MAX / 4,
    ensures
        r == indentation(s@),
{
    let mut k = s.len();
    let mut acc: usize = 0;
    // Find where the indentation ends.
    let mut e: usize = 0;
    while e < s.len() && (s[e] == ' ' || s[e] == '\t')
        invariant
            e <= s@.len(),
            forall|m: int| 0 <= m < e ==> s@[m] == ' ' || s@[m] == '\t',
        decreases s@.len() - e,
    {
        e = e + 1;
    }
    // Sum it from the back.
    k = e;
    proof {
        assert(indent_from(s@, e as int) == 0);
    }
    while k > 0
        invariant
            k <= e <= s@.len(),
            s@.len() <= usize::MAX / 4,
            forall|m: int| 0 <= m < e ==> s@[m] == ' ' || s@[m] == '\t',
            e == s@.len() || !(s@[e as int] == ' ' || s@[e as int] == '\t'),
            acc == indent_from(s@, k as int),
            acc <= 4 * (e - k),
        decreases k,
    {
        k = k - 1;
        if s[k] == ' ' {
            acc = acc + 1;
        } else {
            acc = acc + 4;
        }
    }
    acc
}

impl MD005 {
    /// The indentation of a line: leading spaces count one, tabs four.
    pub fn get_line_indentation(&self, line: &str) -> (r: usize)
        requires
            line@.len() <= usize::MAX / 4,
        ensures
            r == indentation(line@),
    {
        let c = chars_of(line);
        indentation_chars(c.as_slice())
    }

    /// The rule's identifier.
    pub fn id(&self) -> (r: &'static str)
        ensures
            r@ == "MD005"@,
    {
        "MD005"
    }

    /// The rule's name.
    pub fn name(&self) -> (r: &'static str)
        ensures
            r@ == "list-indent"@,
    {
        "list-indent"
    }

    /// What the rule checks.
    pub fn description(&self) -> (r: &'static str)
        ensures
            r@ == "List item indentation should be consistent"@,
    {
        "List item indentation should be consistent"
    }

    /// Checks a document.
    pub fn check(&self, document: &Document) -> (r: Vec<Violation>)
        ensures
            r.deep_view() == node_violations(self, document.lines_of(), document.nodes_of(), 0),
    {
        check_nodes(self, document)
    }
}

impl NodeRule for MD005 {
    open spec fn node_spec(&self, lines: Seq<Seq<char>>, nodes: Seq<MdNode>, i: int) -> Seq<ViolationModel> {
        md005_node(lines, nodes, i)
    }

    fn node_check(&self, document: &Document, nodes: &Vec<MdNode>, i: usize) -> (r: Vec<Violation>) {
        let mut out: Vec<Violation> = Vec::new();
        let is_list = match &nodes[i].kind {
            NodeKind::List { .. } => true,
            _ => false,
        };
        if !is_list {
            return out;
        }
        let ghost lines = document.lines_of();
        let end = find_subtree_end(nodes, i);
        let d = nodes[i].depth;
        let nl = document.line_count();
        let mut expected: Option<usize> = None;
        let mut j = i + 1;
        while j < end
            invariant
                i < j <= end <= nodes@.len(),
                d == nodes@[i as int].depth,
                nl == lines.len(),
                lines == document.lines_of(),
                out.deep_view() + md005_items(lines, nodes@, i as int, j as int, end as int, match expected {
                    Some(e) => Some(e as nat),
                    None => None,
                }) == md005_items(lines, nodes@, i as int, i + 1, end as int, None),
            decreases end - j,
        {
            let node = &nodes[j];
            let is_item = match &node.kind {
                NodeKind::Item => true,
                _ => false,
            };
            let ln = node.start_line;
            let ghost before = out.deep_view();
            if node.depth > d && node.depth - 1 == d && is_item && 1 <= ln && ln <= nl {
                let a = indentation_chars(document.line(ln - 1));
                match expected {
                    None => {
                        expected = Some(a);
                    },
                    Some(e) => {
                        if a != e {
                            let mut message = String::from_str("List item indentation inconsistent: expected ");
                            append_decimal(&mut message, e);
                            message.append(" spaces, found ");
                            append_decimal(&mut message, a);
                            let v = new_violation("MD005", message, ln, 1, Severity::Warning, None);
                            out.push(v);
                            assert(out.deep_view() == before.push(v.deep_view()));
                        }
                    },
                }
            }
            j = j + 1;
        }
        out
    }
}

} // verus!
