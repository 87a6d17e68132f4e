//! MD040: fenced code blocks should name their language.
use vstd::prelude::*;
use vstd::string::StringExecFns;
use crate::document::{Document, MdNode, NodeKind};
use crate::nodes::{check_nodes, lemma_node_violations_empty, node_violations, NodeRule};
use crate::text::{chars_of, trim_chars, trimmed};
use crate::violation::{new_violation, violation_model, Severity, Violation, ViolationModel};

verus! {

/// Rule that flags fenced code blocks without an info string.
pub struct MD040;

/// The violation MD040 reports on node `i`: a fenced code block whose info
/// string is blank.
pub open spec fn md040_node(nodes: Seq<MdNode>, i: int) -> Seq<ViolationModel> {
    match nodes[i].kind {
        NodeKind::CodeBlock { fenced, info, .. } => if fenced && trimmed(info@).len() == 0 {
            seq![
                violation_model(
                    "MD040"@,
                    "Fenced code block is missing language specification"@,
                    nodes[i].start_line,
                    nodes[i].start_column,
                    Severity::Warning,
                    None,
                ),
            ]
        } else {
            seq![]
        },
        _ => seq![],
    }
}

/// Law: a document whose fenced code blocks all name a language (their
/// info string is not blank) draws no report.
pub proof fn md040_labelled_fences_pass(lines: Seq<Seq<char>>, nodes: Seq<MdNode>)
    requires
        forall|k: int|
            0 <= k < nodes.len() ==> match (#[trigger] nodes[k]).kind {
                NodeKind::CodeBlock { fenced, info, .. } => !fenced || trimmed(info@).len() > 0,
                _ => true,
            },
    ensures
        node_violations(&MD040, lines, nodes, 0) == Seq::<ViolationModel>::empty(),
{
    assert forall|k: int| 0 <= k < nodes.len() implies #[trigger] MD040.node_spec(lines, nodes, k)
        == Seq::<ViolationModel>::empty() by {
        assert(match nodes[k].kind {
            NodeKind::CodeBlock { fenced, info, .. } => !fenced || trimmed(info@).len() > 0,
            _ => true,
        });
    }
    lemma_node_violations_empty(&MD040, lines, nodes, 0);
}

impl MD040 {
    /// The rule's identifier.
    pub fn id(&self) -> (r: &'static str)
        ensures
            r@ == "MD040"@,
    {
        "MD040"
    }

    /// The rule's name.
    pub fn name(&self) -> (r: &'static str)
        ensures
            r@ == "fenced-code-language"@,
    {
        "fenced-code-language"
    }

    /// What the rule checks.
    pub fn description(&self) -> (r: &'static str)
        ensures
            r@ == "Fenced code blocks should have a language specified"@,
    {
        "Fenced code blocks should have a language specified"
    }

    /// Checks a document.
    pub fn check(&self, document: &Document) -> (r: Vec<Violation>)
        ensures
            r.deep_view() == node_violations(self, document.lines_of(), document.nodes_of(), 0),
    {
        check_nodes(self, document)
    }
}

impl NodeRule for MD040 {
    open spec fn node_spec(&self, lines: Seq<Seq<char>>, nodes: Seq<MdNode>, i: int) -> Seq<ViolationModel> {
        md040_node(nodes, i)
    }

    fn node_check(&self, document: &Document, nodes: &Vec<MdNode>, i: usize) -> (r: Vec<Violation>) {
        let mut out: Vec<Violation> = Vec::new();
        let node = &nodes[i];
        match &node.kind {
            NodeKind::CodeBlock { fenced, info, .. } => {
                if *fenced && trim_chars(chars_of(info.as_str()).as_slice()).len() == 0 {
                    let v = new_violation(
                        "MD040",
                        String::from_str("Fenced code block is missing language specification"),
                        node.start_line,
                        node.start_column,
                        Severity::Warning,
                        None,
                    );
                    out.push(v);
                    assert(out.deep_view() =~= seq![v.deep_view()]);
                } else {
                    assert(out.deep_view() =~= Seq::<ViolationModel>::empty());
                }
            },
            _ => {
                assert(out.deep_view() =~= Seq::<ViolationModel>::empty());
            },
        }
        out
    }
}

} // verus!
