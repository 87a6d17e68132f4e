//! Questions about the parsed nodes of a document.
use vstd::prelude::*;
use crate::document::{Document, MdNode, NodeKind};
use crate::violation::{Violation, ViolationModel};
use crate::lines::push_vec;

verus! {

/// Line `num` lies within code block node `k` (whose position is known).
pub open spec fn code_block_covers(nodes: Seq<MdNode>, k: int, num: int) -> bool {
    &&& nodes[k].kind is CodeBlock
    &&& nodes[k].start_line > 0
    &&& nodes[k].end_line > 0
    &&& nodes[k].start_line <= num <= nodes[k].end_line
}

/// Line `num` lies within some code block node.
pub open spec fn in_code_block_node(nodes: Seq<MdNode>, num: int) -> bool {
    exists|k: int| 0 <= k < nodes.len() && #[trigger] code_block_covers(nodes, k, num)
}

/// Whether line `num` lies within some code block node.
pub fn line_in_code_block(nodes: &Vec<MdNode>, num: usize) -> (b: bool)
    ensures
        b == in_code_block_node(nodes@, num as int),
{
    let mut k: usize = 0;
    while k < nodes.len()
        invariant
            k <= nodes@.len(),
            forall|j: int| 0 <= j < k ==> !#[trigger] code_block_covers(nodes@, j, num as int),
        decreases nodes@.len() - k,
    {
        let n = &nodes[k];
        let is_code = match &n.kind {
            NodeKind::CodeBlock { .. } => true,
            _ => false,
        };
        if is_code && n.start_line > 0 && n.end_line > 0 && n.start_line <= num && num <= n.end_line {
            assert(code_block_covers(nodes@, k as int, num as int));
            return true;
        }
        k = k + 1;
    }
    false
}

/// For each line, whether it lies within some code block node.
pub fn code_block_flags(document: &Document) -> (f: Vec<bool>)
    ensures
        f@.len() == document.lines_of().len(),
        forall|i: int|
            0 <= i < f@.len() ==> #[trigger] f@[i] == in_code_block_node(document.nodes_of(), i + 1),
{
    let n = document.line_count();
    let nodes = document.nodes();
    let mut f: Vec<bool> = Vec::new();
    for i in 0..n
        invariant
            n <= usize::MAX / 4,
            nodes@ == document.nodes_of(),
            f@.len() == i,
            forall|k: int|
                0 <= k < f@.len() ==> #[trigger] f@[k] == in_code_block_node(document.nodes_of(), k + 1),
    {
        f.push(line_in_code_block(nodes, i + 1));
    }
    f
}

/// A rule that reports violations node by node.
pub trait NodeRule {
    /// The violations the rule reports on node `i` of `nodes`, in a document
    /// with the given lines.
    spec fn node_spec(&self, lines: Seq<Seq<char>>, nodes: Seq<MdNode>, i: int) -> Seq<ViolationModel>;

    /// Judges one node.
    fn node_check(&self, document: &Document, nodes: &Vec<MdNode>, i: usize) -> (r: Vec<Violation>)
        requires
            i < nodes@.len(),
            nodes@ == document.nodes_of(),
        ensures
            r.deep_view() == self.node_spec(document.lines_of(), nodes@, i as int),
    ;
}

/// The violations a node rule reports on nodes `i..`.
pub open spec fn node_violations<R: NodeRule>(
    rule: &R,
    lines: Seq<Seq<char>>,
    nodes: Seq<MdNode>,
    i: int,
) -> Seq<ViolationModel>
    decreases nodes.len() - i,
{
    if i >= nodes.len() || i < 0 {
        seq![]
    } else {
        rule.node_spec(lines, nodes, i) + node_violations(rule, lines, nodes, i + 1)
    }
}

/// A node rule that reports nothing on each node from `i` on reports nothing
/// there in all.
pub proof fn lemma_node_violations_empty<R: NodeRule>(rule: &R, lines: Seq<Seq<char>>, nodes: Seq<MdNode>, i: int)
    requires
        0 <= i,
        forall|k: int| i <= k < nodes.len() ==> #[trigger] rule.node_spec(lines, nodes, k)
            == Seq::<ViolationModel>::empty(),
    ensures
        node_violations(rule, lines, nodes, i) == Seq::<ViolationModel>::empty(),
    decreases nodes.len() - i,
{
    if i < nodes.len() {
        assert(rule.node_spec(lines, nodes, i) == Seq::<ViolationModel>::empty());
        lemma_node_violations_empty(rule, lines, nodes, i + 1);
    }
}

/// Runs a node rule over every node of a document.
pub fn check_nodes<R: NodeRule>(rule: &R, document: &Document) -> (r: Vec<Violation>)
    ensures
        r.deep_view() == node_violations(rule, document.lines_of(), document.nodes_of(), 0),
{
    let ghost lines = document.lines_of();
    let nodes = document.nodes();
    let mut out: Vec<Violation> = Vec::new();
    let mut i: usize = 0;
    while i < nodes.len()
        invariant
            nodes@ == document.nodes_of(),
            lines == document.lines_of(),
            i <= nodes@.len(),
            out.deep_view() + node_violations(rule, lines, nodes@, i as int) == node_violations(
                rule,
                lines,
                nodes@,
                0,
            ),
        decreases nodes@.len() - i,
    {
        let v = rule.node_check(document, nodes, i);
        let ghost before = out.deep_view();
        let ghost here = v.deep_view();
        push_vec(&mut out, v);
        assert(node_violations(rule, lines, nodes@, i as int) == here + node_violations(
            rule,
            lines,
            nodes@,
            i + 1,
        ));
        assert(before + node_violations(rule, lines, nodes@, i as int) == (before + here)
            + node_violations(rule, lines, nodes@, i + 1));
        i = i + 1;
    }
    out
}

/// `a + b`, or `usize::MAX` when that overflows.
pub open spec fn sat_add(a: int, b: int) -> usize {
    if a + b > usize::MAX { usize::MAX } else { (a + b) as usize }
}

/// `a + b`, or `usize::MAX` when that overflows.
pub fn saturating_add(a: usize, b: usize) -> (r: usize)
    ensures
        r == sat_add(a as int, b as int),
{
    if a > usize::MAX - b { usize::MAX } else { a + b }
}

/// End of the subtree of node `i`: the first later node no deeper than it,
/// or `nodes.len()`.
pub open spec fn subtree_end_from(nodes: Seq<MdNode>, i: int, j: int) -> int
    decreases nodes.len() - j,
{
    if j >= nodes.len() || j < 0 {
        nodes.len() as int
    } else if nodes[j].depth <= nodes[i].depth {
        j
    } else {
        subtree_end_from(nodes, i, j + 1)
    }
}

/// End of the subtree of node `i`.
pub open spec fn subtree_end(nodes: Seq<MdNode>, i: int) -> int {
    subtree_end_from(nodes, i, i + 1)
}

pub proof fn lemma_subtree_end(nodes: Seq<MdNode>, i: int, j: int)
    requires
        0 <= i < nodes.len(),
        i < j <= nodes.len(),
    ensures
        j <= subtree_end_from(nodes, i, j) <= nodes.len(),
        forall|k: int| j <= k < subtree_end_from(nodes, i, j) ==> #[trigger] nodes[k].depth > nodes[i].depth,
    decreases nodes.len() - j,
{
    if j < nodes.len() && nodes[j].depth > nodes[i].depth {
        lemma_subtree_end(nodes, i, j + 1);
    }
}

/// End of the subtree of node `i`.
pub fn find_subtree_end(nodes: &Vec<MdNode>, i: usize) -> (r: usize)
    requires
        i < nodes@.len(),
    ensures
        r as int == subtree_end(nodes@, i as int),
        i < r <= nodes@.len(),
{
    proof {
        lemma_subtree_end(nodes@, i as int, i + 1);
    }
    let d = nodes[i].depth;
    let n = nodes.len();
    let mut j = i + 1;
    while j < nodes.len()
        invariant
            i < j <= nodes@.len(),
            d == nodes@[i as int].depth,
            subtree_end(nodes@, i as int) == subtree_end_from(nodes@, i as int, j as int),
        decreases nodes@.len() - j,
    {
        if nodes[j].depth <= d {
            return j;
        }
        j = j + 1;
    }
    j
}

/// Node `j` is a child of node `i`.
pub open spec fn is_child(nodes: Seq<MdNode>, i: int, j: int) -> bool {
    i < j < subtree_end(nodes, i) && nodes[j].depth == nodes[i].depth + 1
}

} // verus!
