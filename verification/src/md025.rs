//! MD025: a single top-level heading per document.
use vstd::prelude::*;
use vstd::string::StringExecFns;
use crate::document::{Document, MdNode, NodeKind};
use crate::text::{chars_of, decimal, string_of, trim_chars, trimmed};
use crate::violation::{
    append_decimal, new_violation, violation_model, Severity, Violation, ViolationModel,
};

verus! {

/// Rule that flags every heading of the checked level after the first.
pub struct MD025 {
    /// The heading level that may occur once.
    pub level: u8,
}

/// Node `k` is a heading of the given level.
pub open spec fn heading_of_level(nodes: Seq<MdNode>, k: int, level: u8) -> bool {
    nodes[k].kind matches NodeKind::Heading { level: l, .. } && l == level
}

/// The violations for nodes `i..`, given the line of the first heading of the
/// level seen so far.
pub open spec fn md025_scan(nodes: Seq<MdNode>, level: u8, i: int, first: Option<usize>) -> Seq<ViolationModel>
    decreases nodes.len() - i,
{
    if i < 0 || i >= nodes.len() {
        seq![]
    } else if heading_of_level(nodes, i, level) {
        match first {
            None => md025_scan(nodes, level, i + 1, Some(nodes[i].start_line)),
            Some(f) => seq![
                violation_model(
                    "MD025"@,
                    "Multiple top-level headings in the same document (first at line "@
                        + decimal(f as nat) + "): "@ + trimmed(nodes[i].text@),
                    nodes[i].start_line,
                    nodes[i].start_column,
                    Severity::Error,
                    None,
                ),
            ] + md025_scan(nodes, level, i + 1, first),
        }
    } else {
        md025_scan(nodes, level, i + 1, first)
    }
}

/// The violations MD025 reports on a document with the given nodes.
pub open spec fn md025_violations(nodes: Seq<MdNode>, level: u8) -> Seq<ViolationModel> {
    md025_scan(nodes, level, 0, None)
}

/// How many of nodes `i..` are headings of level `level`.
pub open spec fn level_count(nodes: Seq<MdNode>, level: u8, i: int) -> nat
    decreases nodes.len() - i,
{
    if i < 0 || i >= nodes.len() {
        0
    } else {
        (if heading_of_level(nodes, i, level) { 1nat } else { 0nat }) + level_count(nodes, level, i + 1)
    }
}

proof fn lemma_scan_len(nodes: Seq<MdNode>, level: u8, i: int, first: Option<usize>)
    requires
        0 <= i,
    ensures
        md025_scan(nodes, level, i, first).len() == if first is Some {
            level_count(nodes, level, i) as int
        } else if level_count(nodes, level, i) == 0 {
            0
        } else {
            level_count(nodes, level, i) - 1
        },
    decreases nodes.len() - i,
{
    if i < nodes.len() {
        if heading_of_level(nodes, i, level) {
            match first {
                None => lemma_scan_len(nodes, level, i + 1, Some(nodes[i].start_line)),
                Some(f) => lemma_scan_len(nodes, level, i + 1, first),
            }
        } else {
            lemma_scan_len(nodes, level, i + 1, first);
        }
    }
}

/// Law: MD025 reports each heading of the checked level after the first
/// one, so a document with at most one such heading draws no report.
pub proof fn md025_reports_all_but_first(nodes: Seq<MdNode>, level: u8)
    ensures
        md025_violations(nodes, level).len() == if level_count(nodes, level, 0) == 0 {
            0
        } else {
            level_count(nodes, level, 0) - 1
        },
{
    lemma_scan_len(nodes, level, 0, None);
}

impl MD025 {
    /// The rule for level-1 headings.
    pub fn new() -> (r: Self)
        ensures
            r.level == 1,
    {
        MD025 { level: 1 }
    }

    /// The rule for headings of a custom level.
    pub fn with_level(level: u8) -> (r: Self)
        ensures
            r.level == level,
    {
        MD025 { level }
    }

    /// The rule's identifier.
    pub fn id(&self) -> (r: &'static str)
        ensures
            r@ == "MD025"@,
    {
        "MD025"
    }

    /// The rule's name.
    pub fn name(&self) -> (r: &'static str)
        ensures
            r@ == "single-title"@,
    {
        "single-title"
    }

    /// What the rule checks.
    pub fn description(&self) -> (r: &'static str)
        ensures
            r@ == "Multiple top-level headings in the same document"@,
    {
        "Multiple top-level headings in the same document"
    }

    /// Checks a document.
    pub fn check(&self, document: &Document) -> (r: Vec<Violation>)
        ensures
            r.deep_view() == md025_violations(document.nodes_of(), self.level),
    {
        let nodes = document.nodes();
        let mut out: Vec<Violation> = Vec::new();
        let mut first: Option<usize> = None;
        let mut i: usize = 0;
        while i < nodes.len()
            invariant
                nodes@ == document.nodes_of(),
                i <= nodes@.len(),
                out.deep_view() + md025_scan(nodes@, self.level, i as int, first) == md025_violations(
                    nodes@,
                    self.level,
                ),
            decreases nodes@.len() - i,
        {
            let node = &nodes[i];
            let matches = match &node.kind {
                NodeKind::Heading { level, .. } => *level == self.level,
                _ => false,
            };
            if matches {
                match first {
                    None => {
                        first = Some(node.start_line);
                    },
                    Some(f) => {
                        let mut message = String::from_str(
                            "Multiple top-level headings in the same document (first at line ",
                        );
                        append_decimal(&mut message, f);
                        message.append("): ");
                        let t = trim_chars(chars_of(node.text.as_str()).as_slice());
                        message.append(string_of(t.as_slice()).as_str());
                        let v = new_violation(
                            "MD025",
                            message,
                            node.start_line,
                            node.start_column,
                            Severity::Error,
                            None,
                        );
                        let ghost before = out.deep_view();
                        out.push(v);
                        assert(out.deep_view() == before.push(v.deep_view()));
                    },
                }
            }
            i = i + 1;
        }
        out
    }
}

impl Default for MD025 {
    fn default() -> (r: Self)
        ensures
            r.level == 1,
    {
        MD025::new()
    }
}

} // verus!
