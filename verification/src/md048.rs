//! MD048: one code fence character, backtick or tilde, throughout a document.
use vstd::prelude::*;
use vstd::string::StringExecFns;
use crate::document::{Document, MdNode, NodeKind};
use crate::violation::{new_violation, violation_model, Severity, Violation, ViolationModel};

verus! {

/// Which fence character code blocks should use.
#[derive(Debug, Clone, Copy, PartialEq, Eq, Structural)]
pub enum FenceStyle {
    /// Fences of backticks.
    Backtick,
    /// Fences of tildes.
    Tilde,
    /// Whichever the document uses first.
    Consistent,
}

/// Rule that flags fences of the other character.
pub struct MD048 {
    /// The preferred style.
    pub style: FenceStyle,
}

/// The fence style of node `node`: `Some` for a fenced code block whose fence
/// is of backticks or tildes.
pub open spec fn fence_style_of(node: MdNode) -> Option<FenceStyle> {
    match node.kind {
        NodeKind::CodeBlock { fenced, fence_char, .. } => if !fenced {
            None
        } else if fence_char == '`' {
            Some(FenceStyle::Backtick)
        } else if fence_char == '~' {
            Some(FenceStyle::Tilde)
        } else {
            None
        },
        _ => None,
    }
}

/// The text of a style in messages.
pub open spec fn fence_text(s: FenceStyle) -> Seq<char> {
    match s {
        FenceStyle::Backtick => "`"@,
        FenceStyle::Tilde => "~"@,
        FenceStyle::Consistent => "consistent"@,
    }
}

/// The violations on nodes `i..`, when `expected` is the style in force.
pub open spec fn md048_from(
    nodes: Seq<MdNode>,
    i: int,
    expected: Option<FenceStyle>,
    style: FenceStyle,
) -> Seq<ViolationModel>
    decreases nodes.len() - i,
{
    if i < 0 || i >= nodes.len() {
        seq![]
    } else {
        match fence_style_of(nodes[i]) {
            Some(current) => match expected {
                Some(e) => (if e != current {
                    seq![
                        violation_model(
                            "MD048"@,
                            "Code fence style inconsistent - expected '"@ + fence_text(e)
                                + "' but found '"@ + fence_text(current) + "'"@,
                            nodes[i].start_line,
                            nodes[i].start_column,
                            Severity::Warning,
                            None,
                        ),
                    ]
                } else {
                    seq![]
                }) + md048_from(nodes, i + 1, expected, style),
                None => md048_from(
                    nodes,
                    i + 1,
                    Some(
                        match style {
                            FenceStyle::Consistent => current,
                            _ => style,
                        },
                    ),
                    style,
                ),
            },
            None => md048_from(nodes, i + 1, expected, style),
        }
    }
}

/// The violations MD048 reports.
pub open spec fn md048_violations(nodes: Seq<MdNode>, style: FenceStyle) -> Seq<ViolationModel> {
    md048_from(
        nodes,
        0,
        match style {
            FenceStyle::Consistent => None,
            _ => Some(style),
        },
        style,
    )
}

/// The fences of nodes `i..` all use style `s`.
pub open spec fn fences_all(nodes: Seq<MdNode>, i: int, s: FenceStyle) -> bool {
    forall|k: int| i <= k < nodes.len() ==> (#[trigger] fence_style_of(nodes[k]) is None
        || fence_style_of(nodes[k]) == Some(s))
}

proof fn lemma_uniform_from(nodes: Seq<MdNode>, i: int, expected: Option<FenceStyle>, style: FenceStyle, s: FenceStyle)
    requires
        0 <= i,
        fences_all(nodes, i, s),
        expected is None || expected == Some(s),
        style == FenceStyle::Consistent || style == s,
    ensures
        md048_from(nodes, i, expected, style) == Seq::<ViolationModel>::empty(),
    decreases nodes.len() - i,
{
    if i < nodes.len() {
        match fence_style_of(nodes[i]) {
            Some(current) => {
                assert(current == s);
                lemma_uniform_from(nodes, i + 1, Some(s), style, s);
            },
            None => {
                lemma_uniform_from(nodes, i + 1, expected, style, s);
            },
        }
    }
}

/// Law: a document whose fenced code blocks all use one fence character draws
/// no report, in the consistent mode or when that character is the one
/// configured.
pub proof fn md048_uniform_fences_pass(nodes: Seq<MdNode>, style: FenceStyle, s: FenceStyle)
    requires
        fences_all(nodes, 0, s),
        style == FenceStyle::Consistent || style == s,
    ensures
        md048_violations(nodes, style) == Seq::<ViolationModel>::empty(),
{
    lemma_uniform_from(
        nodes,
        0,
        match style {
            FenceStyle::Consistent => None,
            _ => Some(style),
        },
        style,
        s,
    );
}

fn fence_str(s: FenceStyle) -> (r: &'static str)
    ensures
        r@ == fence_text(s),
{
    match s {
        FenceStyle::Backtick => "`",
        FenceStyle::Tilde => "~",
        FenceStyle::Consistent => "consistent",
    }
}

impl MD048 {
    /// The rule that follows the first style the document uses.
    pub fn new() -> (r: Self)
        ensures
            r.style == FenceStyle::Consistent,
    {
        MD048 { style: FenceStyle::Consistent }
    }

    /// The rule with a given style.
    pub fn with_style(style: FenceStyle) -> (r: Self)
        ensures
            r.style == style,
    {
        MD048 { style }
    }

    /// The fence style of a node.
    fn get_fence_style(&self, node: &MdNode) -> (r: Option<FenceStyle>)
        ensures
            r == fence_style_of(*node),
    {
        match &node.kind {
            NodeKind::CodeBlock { fenced, fence_char, .. } => {
                if !*fenced {
                    None
                } else if *fence_char == '`' {
                    Some(FenceStyle::Backtick)
                } else if *fence_char == '~' {
                    Some(FenceStyle::Tilde)
                } else {
                    None
                }
            },
            _ => None,
        }
    }

    /// The rule's identifier.
    pub fn id(&self) -> (r: &'static str)
        ensures
            r@ == "MD048"@,
    {
        "MD048"
    }

    /// The rule's name.
    pub fn name(&self) -> (r: &'static str)
        ensures
            r@ == "code-fence-style"@,
    {
        "code-fence-style"
    }

    /// What the rule checks.
    pub fn description(&self) -> (r: &'static str)
        ensures
            r@ == "Code fence style should be consistent"@,
    {
        "Code fence style should be consistent"
    }

    /// Checks a document: every fenced code block, in document order.
    pub fn check(&self, document: &Document) -> (r: Vec<Violation>)
        ensures
            r.deep_view() == md048_violations(document.nodes_of(), self.style),
    {
        let nodes = document.nodes();
        let mut expected = match self.style {
            FenceStyle::Backtick => Some(FenceStyle::Backtick),
            FenceStyle::Tilde => Some(FenceStyle::Tilde),
            FenceStyle::Consistent => None,
        };
        let mut out: Vec<Violation> = Vec::new();
        let mut i: usize = 0;
        while i < nodes.len()
            invariant
                nodes@ == document.nodes_of(),
                i <= nodes@.len(),
                out.deep_view() + md048_from(nodes@, i as int, expected, self.style)
                    == md048_violations(nodes@, self.style),
            decreases nodes@.len() - i,
        {
            let node = &nodes[i];
            match self.get_fence_style(node) {
                Some(current) => {
                    match expected {
                        Some(e) => {
                            if e != current {
                                let mut message = String::from_str(
                                    "Code fence style inconsistent - expected '",
                                );
                                message.append(fence_str(e));
                                message.append("' but found '");
                                message.append(fence_str(current));
                                message.append("'");
                                let v = new_violation(
                                    "MD048",
                                    message,
                                    node.start_line,
                                    node.start_column,
                                    Severity::Warning,
                                    None,
                                );
                                let ghost before = out.deep_view();
                                out.push(v);
                                assert(out.deep_view() == before.push(v.deep_view()));
                            }
                        },
                        None => {
                            expected = match self.style {
                                FenceStyle::Backtick => Some(FenceStyle::Backtick),
                                FenceStyle::Tilde => Some(FenceStyle::Tilde),
                                FenceStyle::Consistent => Some(current),
                            };
                        },
                    }
                },
                None => {},
            }
            i = i + 1;
        }
        out
    }
}

impl Default for MD048 {
    fn default() -> (r: Self)
        ensures
            r.style == FenceStyle::Consistent,
    {
        MD048::new()
    }
}

} // verus!
