//! MD032: lists should be surrounded by blank lines.
use vstd::prelude::*;
use vstd::string::StringExecFns;
use crate::document::{Document, MdNode, NodeKind};
use crate::nodes::{check_nodes, find_subtree_end, node_violations, subtree_end, NodeRule};
use crate::text::{blank_line, is_blank};
use crate::violation::{new_violation, violation_model, Severity, Violation, ViolationModel};

verus! {

/// Rule that wants a blank line before and after each top-level list.
pub struct MD032;

/// Node `j` is an ancestor of node `i`.
pub open spec fn is_ancestor(nodes: Seq<MdNode>, j: int, i: int) -> bool {
    0 <= j < i < subtree_end(nodes, j)
}

/// Node `i` lies inside a list.
pub open spec fn nested_in_list(nodes: Seq<MdNode>, i: int) -> bool {
    exists|j: int| #[trigger] is_ancestor(nodes, j, i) && nodes[j].kind is List
}

/// The largest start line among nodes `k..end`, at least `acc`.
pub open spec fn max_line_from(nodes: Seq<MdNode>, k: int, end: int, acc: usize) -> usize
    decreases end - k,
{
    if k < 0 || k >= end || k >= nodes.len() {
        acc
    } else {
        max_line_from(nodes, k + 1, end, if nodes[k].start_line > acc { nodes[k].start_line } else { acc })
    }
}

/// The last line of list node `i`: the largest start line in its subtree, at least 1.
pub open spec fn list_end_line(nodes: Seq<MdNode>, i: int) -> usize {
    max_line_from(nodes, i, subtree_end(nodes, i), 1)
}

/// The line before 1-based line `n` is blank, or there is none.
pub open spec fn blank_or_none_before(lines: Seq<Seq<char>>, n: int) -> bool {
    n <= 1 || n - 2 >= lines.len() || is_blank(lines[n - 2])
}

/// The line after 1-based line `n` is blank, or there is none.
pub open spec fn blank_or_none_after(lines: Seq<Seq<char>>, n: int) -> bool {
    n >= lines.len() || is_blank(lines[n])
}

/// The violations MD032 reports on node `i`.
pub open spec fn md032_node(lines: Seq<Seq<char>>, nodes: Seq<MdNode>, i: int) -> Seq<ViolationModel> {
    let node = nodes[i];
    if !(node.kind is List) || nested_in_list(nodes, i) {
        seq![]
    } else {
        let end = list_end_line(nodes, i);
        (if !blank_or_none_before(lines, node.start_line as int) {
            seq![
                violation_model(
                    "MD032"@,
                    "List should be preceded by a blank line"@,
                    node.start_line,
                    node.start_column,
                    Severity::Warning,
                    None,
                ),
            ]
        } else {
            seq![]
        }) + (if !blank_or_none_after(lines, end as int) {
            seq![
                violation_model(
                    "MD032"@,
                    "List should be followed by a blank line"@,
                    end,
                    1,
                    Severity::Warning,
                    None,
                ),
            ]
        } else {
            seq![]
        })
    }
}

fn is_nested_list(nodes: &Vec<MdNode>, i: usize) -> (b: bool)
    requires
        i < nodes@.len(),
    ensures
        b == nested_in_list(nodes@, i as int),
{
    let mut j: usize = 0;
    while j < i
        invariant
            j <= i < nodes@.len(),
            forall|k: int| 0 <= k < j ==> !(#[trigger] is_ancestor(nodes@, k, i as int) && nodes@[k].kind is List),
        decreases i - j,
    {
        let is_list = match &nodes[j].kind {
            NodeKind::List { .. } => true,
            _ => false,
        };
        if is_list && find_subtree_end(nodes, j) > i {
            assert(is_ancestor(nodes@, j as int, i as int));
            return true;
        }
        j = j + 1;
    }
    proof {
        assert forall|k: int| #[trigger] is_ancestor(nodes@, k, i as int) implies !(nodes@[k].kind is List) by {
            assert(0 <= k < i);
        }
    }
    false
}

fn find_list_end_line(nodes: &Vec<MdNode>, i: usize) -> (r: usize)
    requires
        i < nodes@.len(),
    ensures
        r == list_end_line(nodes@, i as int),
{
    let end = find_subtree_end(nodes, i);
    let mut acc: usize = 1;
    let mut k = i;
    while k < end
        invariant
            i <= k <= end <= nodes@.len(),
            end as int == subtree_end(nodes@, i as int),
            max_line_from(nodes@, k as int, end as int, acc) == list_end_line(nodes@, i as int),
        decreases end - k,
    {
        if nodes[k].start_line > acc {
            acc = nodes[k].start_line;
        }
        k = k + 1;
    }
    acc
}

impl NodeRule for MD032 {
    open spec fn node_spec(&self, lines: Seq<Seq<char>>, nodes: Seq<MdNode>, i: int) -> Seq<ViolationModel> {
        md032_node(lines, nodes, i)
    }

    fn node_check(&self, document: &Document, nodes: &Vec<MdNode>, i: usize) -> (r: Vec<Violation>) {
        let node = &nodes[i];
        let mut out: Vec<Violation> = Vec::new();
        let is_list = match &node.kind {
            NodeKind::List { .. } => true,
            _ => false,
        };
        if !is_list || is_nested_list(nodes, i) {
            return out;
        }
        let nl = document.line_count();
        let n = node.start_line;
        if !(n <= 1 || n - 2 >= nl || blank_line(document.line(n - 2))) {
            out.push(
                new_violation(
                    "MD032",
                    String::from_str("List should be preceded by a blank line"),
                    n,
                    node.start_column,
                    Severity::Warning,
                    None,
                ),
            );
        }
        let ghost mid = out.deep_view();
        let end = find_list_end_line(nodes, i);
        if !(end >= nl || blank_line(document.line(end))) {
            let v = new_violation(
                "MD032",
                String::from_str("List should be followed by a blank line"),
                end,
                1,
                Severity::Warning,
                None,
            );
            out.push(v);
            assert(out.deep_view() == mid.push(v.deep_view()));
        }
        proof {
            assert(nodes@[i as int] == *node);
            assert(out.deep_view() =~= md032_node(document.lines_of(), nodes@, i as int));
        }
        out
    }
}

impl MD032 {
    /// The rule's identifier.
    pub fn id(&self) -> (r: &'static str)
        ensures
            r@ == "MD032"@,
    {
        "MD032"
    }

    /// The rule's name.
    pub fn name(&self) -> (r: &'static str)
        ensures
            r@ == "blanks-around-lists"@,
    {
        "blanks-around-lists"
    }

    /// What the rule checks.
    pub fn description(&self) -> (r: &'static str)
        ensures
            r@ == "Lists should be surrounded by blank lines"@,
    {
        "Lists should be surrounded by blank lines"
    }

    /// Checks a document.
    pub fn check(&self, document: &Document) -> (r: Vec<Violation>)
        ensures
            r.deep_view() == node_violations(self, document.lines_of(), document.nodes_of(), 0),
    {
        check_nodes(self, document)
    }
}

} // verus!
